//! The intelligence-feed screen: one row per feed layer with its health,
//! and a detail pane for the selected layer.
use vstd::prelude::*;
use crate::files::clamp_cursor;
use crate::lists::{ago_text, format_age};
use crate::text::{chars_of, concat, pad_left, pad_right, padded_left, padded_right, push_char};
use crate::views::{row_view, run, TextRun, Tone};
use crate::ui::Key;

verus! {

/// A feed layer, in display order.
#[derive(Debug, Clone, Copy, PartialEq, Eq, Structural)]
pub enum LayerId {
    Flights,
    Earthquakes,
    Fires,
    Weather,
    Satellites,
    News,
    Cctv,
    Maritime,
    Conflicts,
}

/// How many layers there are.
pub const LAYER_COUNT: usize = 9;

/// The layer at a display position (below `LAYER_COUNT`).
pub open spec fn layer_at(i: int) -> LayerId {
    if i == 0 {
        LayerId::Flights
    } else if i == 1 {
        LayerId::Earthquakes
    } else if i == 2 {
        LayerId::Fires
    } else if i == 3 {
        LayerId::Weather
    } else if i == 4 {
        LayerId::Satellites
    } else if i == 5 {
        LayerId::News
    } else if i == 6 {
        LayerId::Cctv
    } else if i == 7 {
        LayerId::Maritime
    } else {
        LayerId::Conflicts
    }
}

/// All layers, in display order.
pub fn all_layers() -> (r: Vec<LayerId>)
    ensures
        r@.len() == LAYER_COUNT,
        forall|i: int| 0 <= i < LAYER_COUNT ==> r@[i] == layer_at(i),
{
    vec![
        LayerId::Flights,
        LayerId::Earthquakes,
        LayerId::Fires,
        LayerId::Weather,
        LayerId::Satellites,
        LayerId::News,
        LayerId::Cctv,
        LayerId::Maritime,
        LayerId::Conflicts,
    ]
}

/// A layer's name.
pub open spec fn label_of(l: LayerId) -> Seq<char> {
    match l {
        LayerId::Flights => "Flights"@,
        LayerId::Earthquakes => "Earthquakes"@,
        LayerId::Fires => "Fires"@,
        LayerId::Weather => "Weather"@,
        LayerId::Satellites => "Satellites"@,
        LayerId::News => "News"@,
        LayerId::Cctv => "CCTV"@,
        LayerId::Maritime => "Maritime"@,
        LayerId::Conflicts => "Conflicts"@,
    }
}

/// A layer's symbol.
pub open spec fn glyph_of(l: LayerId) -> Seq<char> {
    match l {
        LayerId::Flights => "✈"@,
        LayerId::Earthquakes => "⚠"@,
        LayerId::Fires => "🔥"@,
        LayerId::Weather => "☀"@,
        LayerId::Satellites => "🛰"@,
        LayerId::News => "📰"@,
        LayerId::Cctv => "📷"@,
        LayerId::Maritime => "⚓"@,
        LayerId::Conflicts => "⚔"@,
    }
}

impl LayerId {
    /// The layer's name (see `label_of`).
    pub fn label(&self) -> (r: &'static str)
        ensures
            r@ == label_of(*self),
    {
        match self {
            LayerId::Flights => "Flights",
            LayerId::Earthquakes => "Earthquakes",
            LayerId::Fires => "Fires",
            LayerId::Weather => "Weather",
            LayerId::Satellites => "Satellites",
            LayerId::News => "News",
            LayerId::Cctv => "CCTV",
            LayerId::Maritime => "Maritime",
            LayerId::Conflicts => "Conflicts",
        }
    }

    /// The layer's symbol (see `glyph_of`).
    pub fn glyph(&self) -> (r: &'static str)
        ensures
            r@ == glyph_of(*self),
    {
        match self {
            LayerId::Flights => "✈",
            LayerId::Earthquakes => "⚠",
            LayerId::Fires => "🔥",
            LayerId::Weather => "☀",
            LayerId::Satellites => "🛰",
            LayerId::News => "📰",
            LayerId::Cctv => "📷",
            LayerId::Maritime => "⚓",
            LayerId::Conflicts => "⚔",
        }
    }
}

/// How alarming a layer is.
#[derive(Debug, Clone, Copy, PartialEq, Eq, Structural)]
pub enum Sentinel {
    Green,
    Yellow,
    Red,
}

/// Severity rank: green 0, yellow 1, red 2.
pub open spec fn rank(s: Sentinel) -> int {
    match s {
        Sentinel::Green => 0,
        Sentinel::Yellow => 1,
        Sentinel::Red => 2,
    }
}

/// The chip naming a sentinel.
pub open spec fn chip_of(s: Sentinel) -> Seq<char> {
    match s {
        Sentinel::Green => "GREEN"@,
        Sentinel::Yellow => "YELLOW"@,
        Sentinel::Red => "RED"@,
    }
}

/// The chip naming a sentinel (see `chip_of`).
pub fn sentinel_chip(s: Sentinel) -> (r: &'static str)
    ensures
        r@ == chip_of(s),
{
    match s {
        Sentinel::Green => "GREEN",
        Sentinel::Yellow => "YELLOW",
        Sentinel::Red => "RED",
    }
}

/// The worst sentinel of a list: green for an empty one.
pub open spec fn worst_of(s: Seq<Sentinel>) -> Sentinel
    decreases s.len(),
{
    if s.len() == 0 {
        Sentinel::Green
    } else {
        let w = worst_of(s.drop_last());
        if rank(s.last()) > rank(w) {
            s.last()
        } else {
            w
        }
    }
}

/// The worst sentinel of a list is red when any is red, else yellow when
/// any is yellow, else green (so green for an empty list).
pub proof fn lemma_worst_of_rollup(s: Seq<Sentinel>)
    ensures
        s.contains(Sentinel::Red) ==> worst_of(s) == Sentinel::Red,
        !s.contains(Sentinel::Red) && s.contains(Sentinel::Yellow) ==> worst_of(s) == Sentinel::Yellow,
        !s.contains(Sentinel::Red) && !s.contains(Sentinel::Yellow) ==> worst_of(s) == Sentinel::Green,
    decreases s.len(),
{
    if s.len() > 0 {
        let t = s.drop_last();
        lemma_worst_of_rollup(t);
        assert forall|x: Sentinel| s.contains(x) <==> (t.contains(x) || s.last() == x) by {
            if s.contains(x) {
                let i = choose|i: int| 0 <= i < s.len() && s[i] == x;
                if i < s.len() - 1 {
                    assert(t[i] == x);
                }
            }
            if t.contains(x) {
                let i = choose|i: int| 0 <= i < t.len() && t[i] == x;
                assert(s[i] == x);
            }
            if s.last() == x {
                assert(s[s.len() - 1] == x);
            }
        }
    }
}

/// A layer's fetch state./// A layer's fetch state.
pub enum LayerStatus {
    /// Not fetched yet.
    Pending,
    /// Last fetch succeeded at this time (seconds since the epoch).
    Fresh { last_ok_unix: i64 },
    /// Last fetch failed, with when it last succeeded, if ever.
    Error { last_ok_unix: Option<i64>, reason: String },
}

/// What a layer last reported: its state, severity, one-line summary, how
/// many things it saw, and its raw payload as JSON text (`null` for none).
pub struct Snapshot {
    pub layer: LayerId,
    pub status: LayerStatus,
    pub sentinel: Sentinel,
    pub summary: String,
    pub entity_count: u64,
    pub raw: String,
}

impl Snapshot {
    /// A field-by-field copy.
    pub fn duplicate(&self) -> (r: Snapshot)
        ensures
            r == *self,
    {
        let status = match &self.status {
            LayerStatus::Pending => LayerStatus::Pending,
            LayerStatus::Fresh { last_ok_unix } => LayerStatus::Fresh { last_ok_unix: *last_ok_unix },
            LayerStatus::Error { last_ok_unix, reason } => LayerStatus::Error {
                last_ok_unix: *last_ok_unix,
                reason: reason.clone(),
            },
        };
        Snapshot {
            layer: self.layer,
            status,
            sentinel: self.sentinel,
            summary: self.summary.clone(),
            entity_count: self.entity_count,
            raw: self.raw.clone(),
        }
    }
}

/// The worst sentinel of a snapshot list (see `worst_of`).
pub fn worst_sentinel(snaps: &Vec<Snapshot>) -> (r: Sentinel)
    ensures
        r == worst_of(snaps@.map_values(|s: Snapshot| s.sentinel)),
{
    let ghost sent = snaps@.map_values(|s: Snapshot| s.sentinel);
    let mut w = Sentinel::Green;
    let mut i: usize = 0;
    while i < snaps.len()
        invariant
            i <= snaps@.len(),
            sent == snaps@.map_values(|s: Snapshot| s.sentinel),
            w == worst_of(sent.take(i as int)),
        decreases snaps@.len() - i,
    {
        proof {
            assert(sent.take(i + 1).drop_last() =~= sent.take(i as int));
            assert(sent.take(i + 1).last() == snaps@[i as int].sentinel);
        }
        let s = snaps[i].sentinel;
        let sr: u8 = match s {
            Sentinel::Green => 0,
            Sentinel::Yellow => 1,
            Sentinel::Red => 2,
        };
        let wr: u8 = match w {
            Sentinel::Green => 0,
            Sentinel::Yellow => 1,
            Sentinel::Red => 2,
        };
        if sr > wr {
            w = s;
        }
        i += 1;
    }
    proof {
        assert(sent.take(snaps@.len() as int) =~= sent);
    }
    w
}

// ─── Fixture ────────────────────────────────────────────────────────────

fn snap(
    layer: LayerId,
    status: LayerStatus,
    sentinel: Sentinel,
    summary: &str,
    entity_count: u64,
    raw: &str,
) -> (r: Snapshot)
    ensures
        r.layer == layer,
        r.status == status,
        r.sentinel == sentinel,
        r.summary@ == summary@,
        r.entity_count == entity_count,
        r.raw@ == raw@,
{
    Snapshot { layer, status, sentinel, summary: summary.to_owned(), entity_count, raw: raw.to_owned() }
}

/// The fixture's severity for the layer at position `i`.
pub open spec fn fixture_sentinel(i: int) -> Sentinel {
    if i == 1 || i == 6 || i == 8 {
        Sentinel::Yellow
    } else if i == 2 {
        Sentinel::Red
    } else {
        Sentinel::Green
    }
}

/// The fixture's summary for the layer at position `i`.
pub open spec fn fixture_summary(i: int) -> Seq<char> {
    if i == 0 {
        "OpenSky Network · region=KSEA"@
    } else if i == 1 {
        "USGS · M2.5+ last hour, M4+ last 24h"@
    } else if i == 2 {
        "FIRMS · 1 intensity-4 detection"@
    } else if i == 3 {
        ""@
    } else if i == 4 {
        "CelesTrak · 7 visible in next 60 min"@
    } else if i == 5 {
        "GDELT · 39 mentions last 5 min"@
    } else if i == 6 {
        "1 of 12 streams timed out"@
    } else if i == 7 {
        "AIS Hub · 8 vessels in bbox"@
    } else {
        "ACLED · 5 events last 24h"@
    }
}

/// The fixture's entity count for the layer at position `i`.
pub open spec fn fixture_count(i: int) -> u64 {
    if i == 0 {
        1284
    } else if i == 1 {
        17
    } else if i == 2 {
        243
    } else if i == 3 {
        0
    } else if i == 4 {
        7
    } else if i == 5 {
        39
    } else if i == 6 {
        12
    } else if i == 7 {
        8
    } else {
        5
    }
}

/// The fixture's last success, seconds before `now`, for the layers that
/// fetched (all but Weather).
pub open spec fn fixture_age(i: int) -> int {
    if i == 0 {
        12
    } else if i == 1 {
        45
    } else if i == 2 {
        180
    } else if i == 4 {
        240
    } else if i == 5 {
        60
    } else if i == 6 {
        3600
    } else if i == 7 {
        600
    } else {
        2400
    }
}

/// The fixture's raw payload for the layer at position `i`.
pub open spec fn fixture_raw(i: int, now: i64) -> Seq<char> {
    if i == 0 {
        "{\"states\":[\"… (truncated)\"],\"time\":"@ + crate::text::signed_dec_text(now as int) + "}"@
    } else if i == 1 {
        "{\"features\":[\"… (truncated)\"]}"@
    } else if i == 2 || i == 8 {
        "{\"events\":[\"… (truncated)\"]}"@
    } else if i == 3 {
        "null"@
    } else if i == 4 {
        "{\"above\":[\"… (truncated)\"]}"@
    } else if i == 5 {
        "{\"articles\":[\"… (truncated)\"]}"@
    } else if i == 6 {
        "{\"error\":\"timeout on stream 3\"}"@
    } else {
        "{\"vessels\":[\"… (truncated)\"]}"@
    }
}

/// Whether `now` leaves room for the fixture's timestamps.
pub open spec fn fixture_time_fits(now: i64) -> bool {
    i64::MIN + 3600 <= now
}

/// The layers shown before any live data arrived, relative to `now`: one
/// per layer in display order, Weather still pending and CCTV failing.
pub fn fallback_snapshots(now: i64) -> (r: Vec<Snapshot>)
    requires
        fixture_time_fits(now),
    ensures
        r@.len() == LAYER_COUNT,
        forall|i: int|
            0 <= i < LAYER_COUNT ==> {
                &&& (#[trigger] r@[i]).layer == layer_at(i)
                &&& r@[i].sentinel == fixture_sentinel(i)
                &&& r@[i].summary@ == fixture_summary(i)
                &&& r@[i].entity_count == fixture_count(i)
                &&& r@[i].raw@ == fixture_raw(i, now)
                &&& i != 3 && i != 6 ==> r@[i].status == (LayerStatus::Fresh {
                    last_ok_unix: (now - fixture_age(i)) as i64,
                })
            },
        r@[3].status is Pending,
        r@[6].status matches LayerStatus::Error { last_ok_unix, reason } && last_ok_unix == Some(
            (now - 3600) as i64,
        ) && reason@ == "timeout on stream 3"@,
{
    let time = crate::text::decimal_signed(now);
    let a = concat("{\"states\":[\"… (truncated)\"],\"time\":", time.as_str());
    let flights_raw = concat(a.as_str(), "}");
    let v = vec![
        snap(
            LayerId::Flights,
            LayerStatus::Fresh { last_ok_unix: now - 12 },
            Sentinel::Green,
            "OpenSky Network · region=KSEA",
            1284,
            flights_raw.as_str(),
        ),
        snap(
            LayerId::Earthquakes,
            LayerStatus::Fresh { last_ok_unix: now - 45 },
            Sentinel::Yellow,
            "USGS · M2.5+ last hour, M4+ last 24h",
            17,
            "{\"features\":[\"… (truncated)\"]}",
        ),
        snap(
            LayerId::Fires,
            LayerStatus::Fresh { last_ok_unix: now - 180 },
            Sentinel::Red,
            "FIRMS · 1 intensity-4 detection",
            243,
            "{\"events\":[\"… (truncated)\"]}",
        ),
        snap(LayerId::Weather, LayerStatus::Pending, Sentinel::Green, "", 0, "null"),
        snap(
            LayerId::Satellites,
            LayerStatus::Fresh { last_ok_unix: now - 240 },
            Sentinel::Green,
            "CelesTrak · 7 visible in next 60 min",
            7,
            "{\"above\":[\"… (truncated)\"]}",
        ),
        snap(
            LayerId::News,
            LayerStatus::Fresh { last_ok_unix: now - 60 },
            Sentinel::Green,
            "GDELT · 39 mentions last 5 min",
            39,
            "{\"articles\":[\"… (truncated)\"]}",
        ),
        snap(
            LayerId::Cctv,
            LayerStatus::Error {
                last_ok_unix: Some(now - 3600),
                reason: "timeout on stream 3".to_owned(),
            },
            Sentinel::Yellow,
            "1 of 12 streams timed out",
            12,
            "{\"error\":\"timeout on stream 3\"}",
        ),
        snap(
            LayerId::Maritime,
            LayerStatus::Fresh { last_ok_unix: now - 600 },
            Sentinel::Green,
            "AIS Hub · 8 vessels in bbox",
            8,
            "{\"vessels\":[\"… (truncated)\"]}",
        ),
        snap(
            LayerId::Conflicts,
            LayerStatus::Fresh { last_ok_unix: now - 2400 },
            Sentinel::Yellow,
            "ACLED · 5 events last 24h",
            5,
            "{\"events\":[\"… (truncated)\"]}",
        ),
    ];
    v
}

/// The first snapshot of `s` for layer `id`, if any.
pub open spec fn find_layer(s: Seq<Snapshot>, id: LayerId) -> Option<int>
    decreases s.len(),
{
    if s.len() == 0 {
        None
    } else if s[0].layer == id {
        Some(0)
    } else {
        match find_layer(s.drop_first(), id) {
            Some(i) => Some(i + 1),
            None => None,
        }
    }
}

proof fn lemma_find_layer(s: Seq<Snapshot>, id: LayerId)
    ensures
        find_layer(s, id) matches Some(i) ==> 0 <= i < s.len() && s[i].layer == id && forall|
            j: int,
        | 0 <= j < i ==> s[j].layer != id,
        find_layer(s, id) is None ==> forall|j: int| 0 <= j < s.len() ==> s[j].layer != id,
    decreases s.len(),
{
    if s.len() > 0 && s[0].layer != id {
        lemma_find_layer(s.drop_first(), id);
        assert forall|j: int| 0 < j < s.len() implies s[j] == s.drop_first()[j - 1] by {}
    }
}

/// No two snapshots of `s` are for the same layer.
pub open spec fn layers_unique(s: Seq<Snapshot>) -> bool {
    forall|i: int, j: int| 0 <= i < j < s.len() ==> (#[trigger] s[i]).layer != (#[trigger] s[j]).layer
}

/// Layers in display order are all different.
pub proof fn lemma_layer_at_distinct(i: int, j: int)
    requires
        0 <= i < j < LAYER_COUNT,
    ensures
        layer_at(i) != layer_at(j),
{
}

/// Where no two snapshots share a layer, the one found for a layer is the
/// one snapshot for it.
pub proof fn lemma_find_layer_unique(s: Seq<Snapshot>, k: int)
    requires
        layers_unique(s),
        0 <= k < s.len(),
    ensures
        find_layer(s, s[k].layer) == Some(k),
{
    lemma_find_layer(s, s[k].layer);
    match find_layer(s, s[k].layer) {
        Some(i) => {
            if i < k {
                assert(s[i].layer != s[k].layer);
            }
        },
        None => {},
    }
}

/// The snapshot shown for layer `id`: the first in `s` for that layer, or
/// a pending, green, empty one.
pub open spec fn snapshot_for(s: Seq<Snapshot>, id: LayerId, r: Snapshot) -> bool {
    match find_layer(s, id) {
        Some(i) => r == s[i],
        None => r.layer == id && r.status is Pending && r.sentinel == Sentinel::Green
            && r.summary@.len() == 0 && r.entity_count == 0 && r.raw@ == "null"@,
    }
}

/// The snapshot shown for layer `id` (see `snapshot_for`).
pub fn fixture_for(fixture: &Vec<Snapshot>, id: LayerId) -> (r: Snapshot)
    ensures
        snapshot_for(fixture@, id, r),
{
    let mut i: usize = 0;
    while i < fixture.len()
        invariant
            i <= fixture@.len(),
            forall|j: int| 0 <= j < i ==> fixture@[j].layer != id,
        decreases fixture@.len() - i,
    {
        if fixture[i].layer == id {
            proof {
                lemma_find_layer(fixture@, id);
                lemma_find_layer_first(fixture@, id, i as int);
            }
            return fixture[i].duplicate();
        }
        i += 1;
    }
    proof {
        lemma_find_layer(fixture@, id);
    }
    Snapshot {
        layer: id,
        status: LayerStatus::Pending,
        sentinel: Sentinel::Green,
        summary: String::new(),
        entity_count: 0,
        raw: "null".to_owned(),
    }
}

proof fn lemma_find_layer_first(s: Seq<Snapshot>, id: LayerId, i: int)
    requires
        0 <= i < s.len(),
        s[i].layer == id,
        forall|j: int| 0 <= j < i ==> s[j].layer != id,
    ensures
        find_layer(s, id) == Some(i),
    decreases i,
{
    if i > 0 {
        assert forall|j: int| 0 <= j < i - 1 implies s.drop_first()[j].layer != id by {
            assert(s.drop_first()[j] == s[j + 1]);
        }
        lemma_find_layer_first(s.drop_first(), id, i - 1);
    }
}

/// The snapshots the screen shows: one per layer in display order, the
/// live one when there is one, else the fixture's.
pub fn collect_snapshots(live: &Vec<Snapshot>, fixture: &Vec<Snapshot>) -> (r: Vec<Snapshot>)
    ensures
        r@.len() == LAYER_COUNT,
        forall|i: int|
            0 <= i < LAYER_COUNT ==> match find_layer(live@, layer_at(i)) {
                Some(k) => (#[trigger] r@[i]) == live@[k],
                None => snapshot_for(fixture@, layer_at(i), r@[i]),
            },
        forall|i: int| 0 <= i < LAYER_COUNT ==> (#[trigger] r@[i]).layer == layer_at(i),
        layers_unique(r@),
{
    let ids = all_layers();
    let mut out: Vec<Snapshot> = Vec::new();
    let mut i: usize = 0;
    while i < ids.len()
        invariant
            i <= ids@.len() == LAYER_COUNT,
            forall|k: int| 0 <= k < LAYER_COUNT ==> ids@[k] == layer_at(k),
            out@.len() == i,
            forall|k: int|
                0 <= k < i ==> match find_layer(live@, layer_at(k)) {
                    Some(m) => (#[trigger] out@[k]) == live@[m],
                    None => snapshot_for(fixture@, layer_at(k), out@[k]),
                },
        decreases ids@.len() - i,
    {
        let id = ids[i];
        let s = if has_layer(live, id) {
            fixture_for(live, id)
        } else {
            fixture_for(fixture, id)
        };
        out.push(s);
        i += 1;
    }
    proof {
        assert forall|k: int| 0 <= k < LAYER_COUNT implies (#[trigger] out@[k]).layer == layer_at(k) by {
            lemma_find_layer(live@, layer_at(k));
            lemma_find_layer(fixture@, layer_at(k));
        }
        assert forall|a: int, b: int| 0 <= a < b < out@.len() implies (#[trigger] out@[a]).layer != (
        #[trigger] out@[b]).layer by {
            lemma_layer_at_distinct(a, b);
        }
    }
    out
}

fn has_layer(s: &Vec<Snapshot>, id: LayerId) -> (r: bool)
    ensures
        r == (find_layer(s@, id) is Some),
{
    let mut i: usize = 0;
    while i < s.len()
        invariant
            i <= s@.len(),
            forall|j: int| 0 <= j < i ==> s@[j].layer != id,
        decreases s@.len() - i,
    {
        if s[i].layer == id {
            proof {
                lemma_find_layer_first(s@, id, i as int);
            }
            return true;
        }
        i += 1;
    }
    proof {
        lemma_find_layer(s@, id);
        if find_layer(s@, id) is Some {
            let k = find_layer(s@, id)->0;
            assert(s@[k].layer == id);
        }
    }
    false
}

// ─── Detail pane ────────────────────────────────────────────────────────

/// A line of text, and whether it is drawn as a warning.
pub struct StyledLine {
    pub text: String,
    pub warn: bool,
}

/// The word naming a layer's state.
pub open spec fn word_of(st: LayerStatus) -> Seq<char> {
    match st {
        LayerStatus::Pending => "PENDING"@,
        LayerStatus::Fresh { .. } => "OK"@,
        LayerStatus::Error { .. } => "ERROR"@,
    }
}

/// The word naming a layer's state (see `word_of`).
pub fn status_word(st: &LayerStatus) -> (r: &'static str)
    ensures
        r@ == word_of(*st),
{
    match st {
        LayerStatus::Pending => "PENDING",
        LayerStatus::Fresh { .. } => "OK",
        LayerStatus::Error { .. } => "ERROR",
    }
}

/// The dot marking a layer's state in the grid: hollow while pending,
/// full when fresh, a cross when failing.
pub open spec fn dot_of(st: LayerStatus) -> Seq<char> {
    match st {
        LayerStatus::Pending => "◌"@,
        LayerStatus::Fresh { .. } => "●"@,
        LayerStatus::Error { .. } => "✗"@,
    }
}

/// The dot marking a layer's state (see `dot_of`).
pub fn status_dot_char(st: &LayerStatus) -> (r: &'static str)
    ensures
        r@ == dot_of(*st),
{
    match st {
        LayerStatus::Pending => "◌",
        LayerStatus::Fresh { .. } => "●",
        LayerStatus::Error { .. } => "✗",
    }
}

/// Whether the ages the detail pane shows at `now` fit in `i64`.
pub open spec fn age_fits(st: LayerStatus, now: i64) -> bool {
    match st {
        LayerStatus::Fresh { last_ok_unix: t } => i64::MIN <= now - t <= i64::MAX,
        LayerStatus::Error { last_ok_unix: Some(t), .. } => i64::MIN <= now - t <= i64::MAX,
        _ => true,
    }
}

/// When a layer last fetched, as the detail pane says it at `now`.
pub open spec fn last_ok_text(st: LayerStatus, now: i64) -> Seq<char> {
    match st {
        LayerStatus::Pending => "—"@,
        LayerStatus::Fresh { last_ok_unix: t } => ago_text((now - t) as i64),
        LayerStatus::Error { last_ok_unix: Some(t), .. } => ago_text((now - t) as i64)
            + " (last ok)"@,
        LayerStatus::Error { last_ok_unix: None, .. } => "never"@,
    }
}

/// The detail pane's header: symbol, name and sentinel chip.
pub open spec fn header_text(s: Snapshot) -> Seq<char> {
    glyph_of(s.layer) + " "@ + label_of(s.layer) + "  · "@ + chip_of(s.sentinel)
}

/// The detail pane's state line: the state word and when it last fetched.
pub open spec fn state_text(s: Snapshot, now: i64) -> Seq<char> {
    word_of(s.status) + " · "@ + last_ok_text(s.status, now)
}

/// The summary, or a note that there is none yet.
pub open spec fn summary_text(s: Snapshot) -> Seq<char> {
    if s.summary@.len() == 0 {
        "(no summary yet)"@
    } else {
        s.summary@
    }
}

/// The first `n` characters of `s` (all of them when shorter).
pub open spec fn head_chars(s: Seq<char>, n: nat) -> Seq<char> {
    if s.len() <= n {
        s
    } else {
        s.take(n as int)
    }
}

/// The error line of a failing layer.
pub open spec fn error_text(st: LayerStatus) -> Option<Seq<char>> {
    match st {
        LayerStatus::Error { reason, .. } => Some("error: "@ + reason@),
        _ => None,
    }
}

fn first_chars(s: &str, n: usize) -> (r: String)
    ensures
        r@ == head_chars(s@, n as nat),
{
    let cs = chars_of(s);
    let mut r = String::new();
    let mut i: usize = 0;
    while i < cs.len() && i < n
        invariant
            cs@ == s@,
            i <= cs@.len(),
            i <= n,
            r@ == s@.take(i as int),
        decreases cs@.len() - i,
    {
        push_char(&mut r, cs[i]);
        proof {
            assert(s@.take(i + 1) =~= s@.take(i as int).push(s@[i as int]));
        }
        i += 1;
    }
    proof {
        if s@.len() <= n {
            assert(s@.take(s@.len() as int) =~= s@);
        }
    }
    r
}

fn plain(text: String) -> (l: StyledLine)
    ensures
        l.text@ == text@,
        !l.warn,
{
    StyledLine { text, warn: false }
}

fn header_line(s: &Snapshot) -> (r: String)
    ensures
        r@ == header_text(*s),
{
    let a = concat(s.layer.glyph(), " ");
    let b = concat(a.as_str(), s.layer.label());
    let c = concat(b.as_str(), "  · ");
    concat(c.as_str(), sentinel_chip(s.sentinel))
}

fn state_line(s: &Snapshot, now: i64) -> (r: String)
    requires
        age_fits(s.status, now),
    ensures
        r@ == state_text(*s, now),
{
    let last_ok = match &s.status {
        LayerStatus::Pending => "—".to_owned(),
        LayerStatus::Fresh { last_ok_unix } => format_age(now - *last_ok_unix),
        LayerStatus::Error { last_ok_unix: Some(t), .. } => {
            let a = format_age(now - *t);
            concat(a.as_str(), " (last ok)")
        },
        LayerStatus::Error { last_ok_unix: None, .. } => "never".to_owned(),
    };
    let a = concat(status_word(&s.status), " · ");
    concat(a.as_str(), last_ok.as_str())
}

fn summary_line(s: &Snapshot) -> (r: String)
    ensures
        r@ == summary_text(*s),
{
    if s.summary.as_str().is_empty() {
        "(no summary yet)".to_owned()
    } else {
        s.summary.clone()
    }
}

fn error_line(st: &LayerStatus) -> (r: Option<String>)
    ensures
        match error_text(*st) {
            Some(t) => r matches Some(l) && l@ == t,
            None => r is None,
        },
{
    match st {
        LayerStatus::Error { reason, .. } => Some(concat("error: ", reason.as_str())),
        _ => None,
    }
}

/// The texts of a list of lines.
pub open spec fn texts(v: Seq<StyledLine>) -> Seq<Seq<char>> {
    v.map_values(|l: StyledLine| l.text@)
}

/// The detail pane of the grid screen for `s` at `now`: header, state,
/// blank, summary, blank, the first 160 characters of the raw payload,
/// and the error line of a failing layer.
pub open spec fn grid_detail(s: Snapshot, now: i64) -> Seq<Seq<char>> {
    let base = seq![
        header_text(s),
        state_text(s, now),
        Seq::<char>::empty(),
        summary_text(s),
        Seq::<char>::empty(),
        "raw payload: "@ + head_chars(s.raw@, 160),
    ];
    match error_text(s.status) {
        Some(e) => base.push(e),
        None => base,
    }
}

/// The grid screen: the snapshots shown and the selected row.
pub struct IntelScreen {
    pub snapshots: Vec<Snapshot>,
    pub selected: usize,
}

impl IntelScreen {
    /// No snapshots yet, first row selected.
    pub fn new() -> (s: Self)
        ensures
            s.snapshots@.len() == 0,
            s.selected == 0,
    {
        IntelScreen { snapshots: Vec::new(), selected: 0 }
    }

    /// A screen over the given snapshots, first row selected.
    pub fn with_snapshots(snapshots: Vec<Snapshot>) -> (s: Self)
        ensures
            s.snapshots == snapshots,
            s.selected == 0,
    {
        IntelScreen { snapshots, selected: 0 }
    }

    /// Keep the selection on the list after it changed length.
    pub fn clamp_selected(&mut self)
        ensures
            final(self).snapshots == old(self).snapshots,
            final(self).selected == clamp_cursor(old(self).selected, old(self).snapshots@.len() as usize),
    {
        let n = self.snapshots.len();
        if n == 0 {
            self.selected = 0;
        } else if self.selected >= n {
            self.selected = n - 1;
        }
    }

    /// The worst sentinel of the snapshots (see `worst_of`).
    pub fn worst_sentinel(&self) -> (r: Sentinel)
        ensures
            r == worst_of(self.snapshots@.map_values(|s: Snapshot| s.sentinel)),
    {
        worst_sentinel(&self.snapshots)
    }

    /// Down/`j` and Up/`k` walk the rows as a ring (nothing on an empty
    /// list); any other key, Tab and Esc among them, is left to others.
    pub fn on_key(&mut self, key: Key) -> (used: bool)
        requires
            (key == Key::Down || key == Key::Char('j')) ==> old(self).selected < usize::MAX,
        ensures
            final(self).snapshots == old(self).snapshots,
            used == (key == Key::Down || key == Key::Char('j') || key == Key::Up || key
                == Key::Char('k')),
            ({
                let n = old(self).snapshots@.len();
                let s = old(self).selected;
                if n == 0 || !used {
                    final(self).selected == s
                } else if key == Key::Down || key == Key::Char('j') {
                    final(self).selected == (s + 1) % (n as int)
                } else if s == 0 {
                    final(self).selected == n - 1
                } else {
                    final(self).selected == s - 1
                }
            }),
    {
        let n = self.snapshots.len();
        if key == Key::Down || key == Key::Char('j') {
            if n > 0 {
                self.selected = (self.selected + 1) % n;
            }
            true
        } else if key == Key::Up || key == Key::Char('k') {
            if n > 0 {
                self.selected = if self.selected == 0 {
                    n - 1
                } else {
                    self.selected - 1
                };
            }
            true
        } else {
            false
        }
    }

    /// The detail pane for the selected row at `now` (see `grid_detail`),
    /// or one line saying no layer is selected; only the error line is a
    /// warning.
    pub fn detail_lines(&self, now: i64) -> (r: Vec<StyledLine>)
        requires
            self.selected < self.snapshots@.len() ==> age_fits(
                self.snapshots@[self.selected as int].status,
                now,
            ),
        ensures
            self.selected >= self.snapshots@.len() ==> texts(r@) == seq!["no layer selected"@]
                && !r@[0].warn,
            self.selected < self.snapshots@.len() ==> ({
                let s = self.snapshots@[self.selected as int];
                &&& texts(r@) == grid_detail(s, now)
                &&& forall|i: int| 0 <= i < r@.len() ==> (#[trigger] r@[i]).warn == (i == 6)
            }),
    {
        if self.selected >= self.snapshots.len() {
            let v = vec![plain("no layer selected".to_owned())];
            proof {
                assert(texts(v@) =~= seq!["no layer selected"@]);
            }
            return v;
        }
        let s = &self.snapshots[self.selected];
        let raw = first_chars(s.raw.as_str(), 160);
        let mut v = vec![
            plain(header_line(s)),
            plain(state_line(s, now)),
            plain(String::new()),
            plain(summary_line(s)),
            plain(String::new()),
            plain(concat("raw payload: ", raw.as_str())),
        ];
        match error_line(&s.status) {
            Some(e) => {
                v.push(StyledLine { text: e, warn: true });
            },
            None => {},
        }
        proof {
            assert(texts(v@) =~= grid_detail(*s, now));
        }
        v
    }
}

/// The detail pane of the D-pad screen for `s` at `now`: header, state,
/// blank, summary, then (unless the raw payload is `null`) a blank and
/// the first 160 characters of the payload, and the error line of a
/// failing layer.
pub open spec fn pane_detail(s: Snapshot, now: i64) -> Seq<Seq<char>> {
    let base = seq![header_text(s), state_text(s, now), Seq::<char>::empty(), summary_text(s)];
    let with_raw = if s.raw@ == "null"@ {
        base
    } else {
        base + seq![Seq::<char>::empty(), "raw: "@ + head_chars(s.raw@, 160)]
    };
    match error_text(s.status) {
        Some(e) => with_raw.push(e),
        None => with_raw,
    }
}

/// The D-pad screen's detail pane (see `pane_detail`), or one line saying
/// no layer is selected; only the error line is a warning.
pub fn detail_lines_for(snap: Option<&Snapshot>, now: i64) -> (r: Vec<StyledLine>)
    requires
        snap matches Some(s) ==> age_fits(s.status, now),
    ensures
        snap is None ==> texts(r@) == seq!["no layer selected"@] && !r@[0].warn,
        snap matches Some(s) ==> ({
            &&& texts(r@) == pane_detail(*s, now)
            &&& forall|i: int| 0 <= i < r@.len() ==> (#[trigger] r@[i]).warn == (error_text(
                s.status,
            ) is Some && i == r@.len() - 1)
        }),
{
    let s = match snap {
        None => {
            let v = vec![plain("no layer selected".to_owned())];
            proof {
                assert(texts(v@) =~= seq!["no layer selected"@]);
            }
            return v;
        },
        Some(s) => s,
    };
    let mut v = vec![
        plain(header_line(s)),
        plain(state_line(s, now)),
        plain(String::new()),
        plain(summary_line(s)),
    ];
    let ghost base = texts(v@);
    if !crate::text::same_str(s.raw.as_str(), "null") {
        let raw = first_chars(s.raw.as_str(), 160);
        v.push(plain(String::new()));
        v.push(plain(concat("raw: ", raw.as_str())));
    }
    let ghost with_raw = texts(v@);
    proof {
        assert(with_raw =~= if s.raw@ == "null"@ {
            base
        } else {
            base + seq![Seq::<char>::empty(), "raw: "@ + head_chars(s.raw@, 160)]
        });
    }
    match error_line(&s.status) {
        Some(e) => {
            v.push(StyledLine { text: e, warn: true });
        },
        None => {},
    }
    proof {
        assert(texts(v@) =~= pane_detail(*s, now));
    }
    v
}

/// A grid row: `▶` on the selected row, the layer's symbol and name
/// (width 10), its entity count as drawn (right-aligned, width 5) and its
/// state dot.
pub open spec fn grid_row_of(s: Snapshot, sel: bool, count: Seq<char>) -> Seq<char> {
    (if sel {
        "▶ "@
    } else {
        "  "@
    }) + glyph_of(s.layer) + " "@ + padded_right(label_of(s.layer), 10) + " "@ + padded_left(count, 5)
        + " "@ + dot_of(s.status)
}

/// The grid's title: the worst sentinel's chip.
pub open spec fn grid_title_of(snaps: Seq<Snapshot>) -> Seq<char> {
    " Intel · "@ + chip_of(worst_of(snaps.map_values(|s: Snapshot| s.sentinel))) + " "@
}

/// The layer grid: its title and a row per layer, the selected one drawn
/// selected.
pub struct IntelGrid {
    pub title: String,
    pub rows: Vec<Vec<TextRun>>,
}

/// The grid for `snaps` with row `sel` selected; `counts` holds each
/// layer's entity count as drawn.
pub fn intel_grid(snaps: &Vec<Snapshot>, sel: usize, counts: &Vec<String>) -> (g: IntelGrid)
    requires
        counts@.len() == snaps@.len(),
    ensures
        g.title@ == grid_title_of(snaps@),
        g.rows@.len() == snaps@.len(),
        forall|k: int|
            0 <= k < snaps@.len() ==> row_view((#[trigger] g.rows@[k])@) == seq![
                (grid_row_of(snaps@[k], k == sel, counts@[k]@), if k == sel {
                    Tone::Selected
                } else {
                    Tone::Fg
                }),
            ],
{
    let w = worst_sentinel(snaps);
    let t = concat(" Intel · ", sentinel_chip(w));
    let title = concat(t.as_str(), " ");
    let mut rows: Vec<Vec<TextRun>> = Vec::new();
    let mut k: usize = 0;
    while k < snaps.len()
        invariant
            k <= snaps@.len() == counts@.len(),
            rows@.len() == k,
            forall|j: int|
                0 <= j < k ==> row_view((#[trigger] rows@[j])@) == seq![
                    (grid_row_of(snaps@[j], j == sel, counts@[j]@), if j == sel {
                        Tone::Selected
                    } else {
                        Tone::Fg
                    }),
                ],
        decreases snaps@.len() - k,
    {
        let s = &snaps[k];
        let on = k == sel;
        let a = concat(
            if on {
                "▶ "
            } else {
                "  "
            },
            s.layer.glyph(),
        );
        let b = concat(a.as_str(), " ");
        let c = concat(b.as_str(), pad_right(s.layer.label(), 10).as_str());
        let d = concat(c.as_str(), " ");
        let e = concat(d.as_str(), pad_left(counts[k].as_str(), 5).as_str());
        let f = concat(e.as_str(), " ");
        let text = concat(f.as_str(), status_dot_char(&s.status));
        let r = vec![
            run(
                text,
                if on {
                    Tone::Selected
                } else {
                    Tone::Fg
                },
            ),
        ];
        proof {
            assert(row_view(r@) =~= seq![
                (grid_row_of(snaps@[k as int], k == sel, counts@[k as int]@), if k == sel {
                    Tone::Selected
                } else {
                    Tone::Fg
                }),
            ]);
        }
        rows.push(r);
        k += 1;
    }
    IntelGrid { title, rows }
}

impl IntelScreen {
    /// Keep the selection on the list, then lay out the grid (see
    /// `intel_grid`).
    pub fn grid_view(&mut self, counts: &Vec<String>) -> (g: IntelGrid)
        requires
            counts@.len() == old(self).snapshots@.len(),
        ensures
            final(self).snapshots == old(self).snapshots,
            final(self).selected == clamp_cursor(old(self).selected, old(self).snapshots@.len() as usize),
            g.title@ == grid_title_of(final(self).snapshots@),
            g.rows@.len() == final(self).snapshots@.len(),
            forall|k: int|
                0 <= k < final(self).snapshots@.len() ==> row_view((#[trigger] g.rows@[k])@) == seq![
                    (grid_row_of(final(self).snapshots@[k], k == final(self).selected, counts@[k]@), if k
                        == final(self).selected {
                        Tone::Selected
                    } else {
                        Tone::Fg
                    }),
                ],
    {
        self.clamp_selected();
        intel_grid(&self.snapshots, self.selected, counts)
    }
}

impl crate::nav_screens::IntelScreenV2 {
    /// The grid over `snaps` with the selection kept on the list (see
    /// `intel_grid`); the detail beside it is `detail_lines_for` of that
    /// row.
    pub fn grid_view(&self, snaps: &Vec<Snapshot>, counts: &Vec<String>) -> (g: IntelGrid)
        requires
            counts@.len() == snaps@.len(),
        ensures
            g.title@ == grid_title_of(snaps@),
            g.rows@.len() == snaps@.len(),
            forall|k: int|
                0 <= k < snaps@.len() ==> row_view((#[trigger] g.rows@[k])@) == seq![
                    (grid_row_of(snaps@[k], k == clamp_cursor(self.selected, snaps@.len() as usize), counts@[k]@),
                    if k == clamp_cursor(self.selected, snaps@.len() as usize) {
                        Tone::Selected
                    } else {
                        Tone::Fg
                    }),
                ],
    {
        let n = snaps.len();
        let sel = if n == 0 {
            0
        } else if self.selected >= n {
            n - 1
        } else {
            self.selected
        };
        proof {
            assert(sel == clamp_cursor(self.selected, n));
        }
        intel_grid(snaps, sel, counts)
    }
}

} // verus!
