//! The City screen's integer logic: compass labels, the precipitation
//! sparkline, the checks on a weather response, the synthetic traffic
//! model and the key map. Map projection, panning and zooming work in
//! floating point and are the renderer's.
use vstd::prelude::*;
use crate::braille::{coord_ok, lemma_painted_concat, line, line_path, painted, BrailleGrid};
use crate::text::{concat, dec_text, decimal};
use crate::ui::Key;
use crate::views::{push_row, rows_view, run, single, TextRun, Tone};

verus! {

/// The sixteen compass points, clockwise from north.
pub open spec fn compass_points() -> Seq<Seq<char>> {
    seq![
        "N"@,
        "NNE"@,
        "NE"@,
        "ENE"@,
        "E"@,
        "ESE"@,
        "SE"@,
        "SSE"@,
        "S"@,
        "SSW"@,
        "SW"@,
        "WSW"@,
        "W"@,
        "WNW"@,
        "NW"@,
        "NNW"@,
    ]
}

/// Sector of a wind direction: the circle cut into sixteen sectors of
/// 22.5°, the first centred on north (from 348.75° round to 11.25°).
pub open spec fn compass_sector(deg: u16) -> int {
    ((deg as int % 360) * 4 + 45) / 90 % 16
}

/// The compass label of a wind direction in degrees (0 = north, 90 =
/// east): one of sixteen points, each covering 22.5°.
pub fn compass_point(deg: u16) -> (r: &'static str)
    ensures
        r@ == compass_points()[compass_sector(deg)],
{
    let q: u32 = (deg as u32) % 360;
    assert(q * 4 + 45 < 1500) by (nonlinear_arith)
        requires
            q < 360,
    ;
    let idx = ((q * 4 + 45) / 90 % 16) as usize;
    match idx {
        0 => "N",
        1 => "NNE",
        2 => "NE",
        3 => "ENE",
        4 => "E",
        5 => "ESE",
        6 => "SE",
        7 => "SSE",
        8 => "S",
        9 => "SSW",
        10 => "SW",
        11 => "WSW",
        12 => "W",
        13 => "WNW",
        14 => "NW",
        _ => "NNW",
    }
}

/// The eight bar heights of the sparkline, lowest first.
pub open spec fn spark_bars() -> Seq<char> {
    seq!['▁', '▂', '▃', '▄', '▅', '▆', '▇', '█']
}

/// Bar level of a percentage: capped at 100, scaled to eight levels, the
/// top level shared by 100.
pub open spec fn spark_level(v: u8) -> int {
    let c = if v > 100 {
        100
    } else {
        v as int
    };
    let l = c * 8 / 100;
    if l > 7 {
        7
    } else {
        l
    }
}

/// One bar per percentage.
pub fn precip_sparkline(p: &[u8]) -> (s: String)
    ensures
        s@.len() == p@.len(),
        forall|i: int| 0 <= i < p@.len() ==> s@[i] == spark_bars()[spark_level(#[trigger] p@[i])],
{
    let mut s = String::new();
    for i in 0..p.len()
        invariant
            s@.len() == i,
            forall|k: int| 0 <= k < i ==> s@[k] == spark_bars()[spark_level(#[trigger] p@[k])],
    {
        let v = p[i];
        let c: usize = if v > 100 {
            100
        } else {
            v as usize
        };
        let l0 = c * 8 / 100;
        let level = if l0 > 7 {
            7
        } else {
            l0
        };
        let bar = match level {
            0 => '▁',
            1 => '▂',
            2 => '▃',
            3 => '▄',
            4 => '▅',
            5 => '▆',
            6 => '▇',
            _ => '█',
        };
        crate::text::push_char(&mut s, bar);
    }
    s
}

// ─── Weather response ───────────────────────────────────────────────────

/// Why a weather response was refused.
#[derive(Debug, Clone, PartialEq, Eq)]
pub enum WeatherError {
    /// The HTTP request failed; the error's text.
    Network(String),
    /// The response lacked something required.
    BadPayload(String),
}

/// The `current` block of a forecast response; temperatures and wind
/// speed as `f32` bit patterns (`f32::to_bits`).
pub struct CurrentBlock {
    pub temperature_bits: Option<u32>,
    pub apparent_temperature_bits: Option<u32>,
    pub humidity_pct: Option<u8>,
    pub wind_speed_bits: Option<u32>,
    pub wind_direction_deg: Option<u16>,
    pub weather_code: Option<u8>,
    pub is_day: u8,
}

/// A weather reading, floating-point values as bit patterns.
pub struct Reading {
    pub temp_bits: u32,
    pub feels_like_bits: u32,
    pub humidity_pct: u8,
    pub wind_bits: u32,
    pub wind_dir_deg: Option<u16>,
    pub weather_code: u8,
    pub next_12h_precip_pct: Option<Vec<u8>>,
    pub is_day: bool,
}

/// Hourly precipitation slots the sparkline shows.
pub const HOURLY_PRECIP_HOURS: usize = 12;

/// The known values among the first `n` hourly slots, in order.
pub open spec fn known_prefix(v: Seq<Option<u8>>, n: int) -> Seq<u8>
    decreases n,
{
    if n <= 0 || v.len() == 0 {
        Seq::empty()
    } else {
        let k = if n < v.len() {
            n
        } else {
            v.len() as int
        };
        let rest = known_prefix(v, k - 1);
        match v[k - 1] {
            Some(x) => rest.push(x),
            None => rest,
        }
    }
}

/// The precipitation the sparkline gets: the known values of the first
/// twelve slots, or nothing when none is known.
pub open spec fn precip_of(hourly: Option<Seq<Option<u8>>>) -> Option<Seq<u8>> {
    match hourly {
        Some(v) => if known_prefix(v, HOURLY_PRECIP_HOURS as int).len() == 0 {
            None
        } else {
            Some(known_prefix(v, HOURLY_PRECIP_HOURS as int))
        },
        None => None,
    }
}

/// The known values of the first twelve slots, or `None` when there are
/// none.
pub fn next_12h_precip(slots: Vec<Option<u8>>) -> (r: Option<Vec<u8>>)
    ensures
        match precip_of(Some(slots@)) {
            Some(v) => r matches Some(w) && w@ == v,
            None => r is None,
        },
{
    let n = if slots.len() < HOURLY_PRECIP_HOURS {
        slots.len()
    } else {
        HOURLY_PRECIP_HOURS
    };
    let mut v: Vec<u8> = Vec::new();
    for i in 0..n
        invariant
            n <= slots@.len(),
            n <= HOURLY_PRECIP_HOURS,
            v@ == known_prefix(slots@, i as int),
    {
        match slots[i] {
            Some(x) => v.push(x),
            None => {},
        }
        assert(known_prefix(slots@, i + 1) == match slots@[i as int] {
            Some(x) => known_prefix(slots@, i as int).push(x),
            None => known_prefix(slots@, i as int),
        });
    }
    assert(known_prefix(slots@, HOURLY_PRECIP_HOURS as int) == known_prefix(slots@, n as int)) by {
        if slots@.len() < HOURLY_PRECIP_HOURS {
            assert(known_prefix(slots@, HOURLY_PRECIP_HOURS as int) == known_prefix(
                slots@,
                slots@.len() as int,
            ));
        }
    }
    if v.len() == 0 {
        None
    } else {
        Some(v)
    }
}

/// What a reading holds for a `current` block with temperature `t` and
/// the hourly slots.
pub open spec fn reading_matches(
    w: Reading,
    c: CurrentBlock,
    t: u32,
    hourly: Option<Seq<Option<u8>>>,
) -> bool {
    &&& w.temp_bits == t
    &&& w.feels_like_bits == match c.apparent_temperature_bits {
        Some(a) => a,
        None => t,
    }
    &&& w.humidity_pct == match c.humidity_pct {
        Some(h) => h,
        None => 0,
    }
    &&& w.wind_bits == match c.wind_speed_bits {
        Some(s) => s,
        None => 0,
    }
    &&& w.wind_dir_deg == c.wind_direction_deg
    &&& w.weather_code == match c.weather_code {
        Some(x) => x,
        None => 0,
    }
    &&& w.is_day == (c.is_day != 0)
    &&& match precip_of(hourly) {
        Some(v) => w.next_12h_precip_pct matches Some(p) && p@ == v,
        None => w.next_12h_precip_pct is None,
    }
}

/// The reading a response gives: refused without a `current` block or
/// without a temperature; the felt temperature defaults to the air
/// temperature, humidity, wind speed and weather code to zero.
pub fn reading_from_response(current: Option<CurrentBlock>, hourly: Option<Vec<Option<u8>>>) -> (r:
    Result<Reading, WeatherError>)
    ensures
        match current {
            None => r matches Err(WeatherError::BadPayload(m)) && m@ == "missing `current` block"@,
            Some(c) => match c.temperature_bits {
                None => r matches Err(WeatherError::BadPayload(m)) && m@
                    == "missing temperature_2m"@,
                Some(t) => r matches Ok(w) && reading_matches(
                    w,
                    c,
                    t,
                    match hourly {
                        Some(h) => Some(h@),
                        None => None,
                    },
                ),
            },
        },
{
    let c = match current {
        Some(c) => c,
        None => {
            return Err(WeatherError::BadPayload("missing `current` block".to_owned()));
        },
    };
    let temp_bits = match c.temperature_bits {
        Some(t) => t,
        None => {
            return Err(WeatherError::BadPayload("missing temperature_2m".to_owned()));
        },
    };
    let feels_like_bits = match c.apparent_temperature_bits {
        Some(a) => a,
        None => temp_bits,
    };
    let humidity_pct = match c.humidity_pct {
        Some(h) => h,
        None => 0,
    };
    let wind_bits = match c.wind_speed_bits {
        Some(s) => s,
        None => 0,
    };
    let weather_code = match c.weather_code {
        Some(x) => x,
        None => 0,
    };
    let next = match hourly {
        Some(h) => next_12h_precip(h),
        None => None,
    };
    Ok(
        Reading {
            temp_bits,
            feels_like_bits,
            humidity_pct,
            wind_bits,
            wind_dir_deg: c.wind_direction_deg,
            weather_code,
            next_12h_precip_pct: next,
            is_day: c.is_day != 0,
        },
    )
}

// ─── Synthetic traffic ──────────────────────────────────────────────────

/// How congested a road is drawn.
#[derive(Debug, Clone, Copy, PartialEq, Eq, Structural)]
pub enum TrafficLevel {
    Fluid,
    Light,
    Heavy,
    Gridlock,
}

/// Severity rank of a level: 0 for fluid up to 3 for gridlock.
pub open spec fn spec_severity(l: TrafficLevel) -> u8 {
    match l {
        TrafficLevel::Fluid => 0,
        TrafficLevel::Light => 1,
        TrafficLevel::Heavy => 2,
        TrafficLevel::Gridlock => 3,
    }
}

impl TrafficLevel {
    /// Severity rank: 0 for fluid up to 3 for gridlock.
    pub fn severity(&self) -> (r: u8)
        ensures
            r == spec_severity(*self),
    {
        match self {
            TrafficLevel::Fluid => 0,
            TrafficLevel::Light => 1,
            TrafficLevel::Heavy => 2,
            TrafficLevel::Gridlock => 3,
        }
    }
}

/// Where the traffic data comes from.
#[derive(Debug, Clone, Copy, PartialEq, Eq, Structural)]
pub enum TrafficSource {
    Synthetic,
}

/// Time-of-day buckets of the traffic model.
#[derive(Debug, Clone, Copy, PartialEq, Eq, Structural)]
pub enum Period {
    CommuteMorning,
    CommuteEvening,
    Midday,
    Evening,
    WeekendLeisure,
    Quiet,
}

/// The period of an hour (0–23) on a weekday (0 = Monday): weekday peaks
/// 7–9 and 16–18, midday 10–15, evening 19–22, weekend leisure 11–14,
/// quiet otherwise.
pub open spec fn period_of(weekday: u32, hour: u32) -> Period {
    if weekday < 5 {
        if 7 <= hour < 10 {
            Period::CommuteMorning
        } else if 16 <= hour < 19 {
            Period::CommuteEvening
        } else if 10 <= hour <= 15 {
            Period::Midday
        } else if 19 <= hour <= 22 {
            Period::Evening
        } else {
            Period::Quiet
        }
    } else if 11 <= hour < 15 {
        Period::WeekendLeisure
    } else {
        Period::Quiet
    }
}

/// The period of an hour on a weekday (0 = Monday).
pub fn period_for(weekday: u32, hour: u32) -> (p: Period)
    ensures
        p == period_of(weekday, hour),
{
    let is_weekend = weekday >= 5;
    if !is_weekend {
        if 7 <= hour && hour < 10 {
            Period::CommuteMorning
        } else if 16 <= hour && hour < 19 {
            Period::CommuteEvening
        } else if 10 <= hour && hour <= 15 {
            Period::Midday
        } else if 19 <= hour && hour <= 22 {
            Period::Evening
        } else {
            Period::Quiet
        }
    } else if 11 <= hour && hour < 15 {
        Period::WeekendLeisure
    } else {
        Period::Quiet
    }
}

/// Road classes of the model.
pub enum RoadKind {
    Arterial,
    Collector,
    Local,
}

/// The class of an OSM road tag: motorways and trunks are arterial,
/// primary and secondary roads collectors, the rest local.
pub open spec fn road_kind(importance: Seq<char>) -> RoadKind {
    if importance == "motorway"@ || importance == "trunk"@ {
        RoadKind::Arterial
    } else if importance == "primary"@ || importance == "secondary"@ {
        RoadKind::Collector
    } else {
        RoadKind::Local
    }
}

/// Lowest and highest severity (0 = fluid … 3 = gridlock) a road class
/// shows in a period.
pub open spec fn severity_window(kind: RoadKind, period: Period) -> (int, int) {
    let peak = period == Period::CommuteMorning || period == Period::CommuteEvening;
    match kind {
        RoadKind::Arterial => if peak {
            (2, 3)
        } else {
            (1, 2)
        },
        RoadKind::Collector => if peak {
            (1, 3)
        } else {
            (1, 2)
        },
        RoadKind::Local => if peak || period == Period::WeekendLeisure {
            (1, 2)
        } else {
            (0, 1)
        },
    }
}

pub open spec fn level_of_severity(sev: int) -> TrafficLevel {
    if sev == 0 {
        TrafficLevel::Fluid
    } else if sev == 1 {
        TrafficLevel::Light
    } else if sev == 2 {
        TrafficLevel::Heavy
    } else {
        TrafficLevel::Gridlock
    }
}

/// A road's level: the lowest severity of its window raised by the low two
/// bits of its hash, at most to the top of the window.
pub open spec fn spec_level_for(importance: Seq<char>, period: Period, hash: u64) -> TrafficLevel {
    let (lo, hi) = severity_window(road_kind(importance), period);
    let bucket = (hash % 4) as int;
    level_of_severity(
        lo + if bucket < hi - lo {
            bucket
        } else {
            hi - lo
        },
    )
}

/// `v`, or `cap` when `v` is above it.
pub open spec fn at_most(v: int, cap: int) -> int {
    if v <= cap {
        v
    } else {
        cap
    }
}

/// Whether a period is a weekday commute peak.
pub open spec fn is_commute(p: Period) -> bool {
    p == Period::CommuteMorning || p == Period::CommuteEvening
}

/// A commute peak never shows a road lighter than any other period does,
/// for the same road and hash.
pub proof fn lemma_level_raised_in_commute(importance: Seq<char>, period: Period, hash: u64)
    ensures
        spec_severity(spec_level_for(importance, period, hash)) <= spec_severity(
            spec_level_for(importance, Period::CommuteMorning, hash),
        ),
        spec_level_for(importance, Period::CommuteMorning, hash) == spec_level_for(
            importance,
            Period::CommuteEvening,
            hash,
        ),
{
}

/// The traffic model's rules of thumb, for every period and road hash:
/// secondary roads behave as primary ones and trunks as motorways;
/// motorways and trunks are never below `Light` and reach `Gridlock` only
/// in a commute peak, where a primary or secondary road's severity is
/// `1 + min(hash % 4, 2)` and a motorway's `2 + min(hash % 4, 1)`; any
/// other road never reaches `Gridlock`, and outside commute peaks and
/// weekend leisure it stays at `Light` or below.
pub proof fn lemma_level_rules(period: Period, hash: u64, other: Seq<char>)
    requires
        other != "motorway"@,
        other != "trunk"@,
        other != "primary"@,
        other != "secondary"@,
    ensures
        spec_level_for("secondary"@, period, hash) == spec_level_for("primary"@, period, hash),
        spec_level_for("trunk"@, period, hash) == spec_level_for("motorway"@, period, hash),
        spec_level_for("motorway"@, period, hash) != TrafficLevel::Fluid,
        spec_level_for("motorway"@, period, hash) == TrafficLevel::Gridlock ==> is_commute(period),
        is_commute(period) ==> spec_severity(spec_level_for("primary"@, period, hash)) == 1
            + at_most((hash % 4) as int, 2),
        is_commute(period) ==> spec_severity(spec_level_for("motorway"@, period, hash)) == 2
            + at_most((hash % 4) as int, 1),
        spec_level_for(other, period, hash) != TrafficLevel::Gridlock,
        !is_commute(period) && period != Period::WeekendLeisure ==> spec_severity(
            spec_level_for(other, period, hash),
        ) <= 1,
{
    reveal_strlit("motorway");
    reveal_strlit("trunk");
    reveal_strlit("primary");
    reveal_strlit("secondary");
    assert("secondary"@.len() == 9 && "primary"@.len() == 7 && "motorway"@.len() == 8
        && "trunk"@.len() == 5);
    assert("secondary"@ != "motorway"@);
    assert("secondary"@ != "trunk"@);
    assert("primary"@ != "motorway"@);
    assert("primary"@ != "trunk"@);
    assert("trunk"@ != "motorway"@);
}

/// A road's level from its OSM tag, the period and its hash.
pub fn level_for(importance: &str, period: Period, hash: u64) -> (r: TrafficLevel)
    ensures
        r == spec_level_for(importance@, period, hash),
{
    let bucket = (hash & 0x3) as u8;
    assert(hash & 0x3 == hash % 4) by (bit_vector);
    let kind = if crate::text::same_str(importance, "motorway") || crate::text::same_str(
        importance,
        "trunk",
    ) {
        RoadKind::Arterial
    } else if crate::text::same_str(importance, "primary") || crate::text::same_str(
        importance,
        "secondary",
    ) {
        RoadKind::Collector
    } else {
        RoadKind::Local
    };
    let peak = period == Period::CommuteMorning || period == Period::CommuteEvening;
    let (min_sev, max_sev): (u8, u8) = match kind {
        RoadKind::Arterial => if peak {
            (2, 3)
        } else {
            (1, 2)
        },
        RoadKind::Collector => if peak {
            (1, 3)
        } else {
            (1, 2)
        },
        RoadKind::Local => if peak || period == Period::WeekendLeisure {
            (1, 2)
        } else {
            (0, 1)
        },
    };
    let span = max_sev - min_sev;
    let sev = min_sev + if bucket < span {
        bucket
    } else {
        span
    };
    severity_to_level(sev)
}

/// The level of a severity: 0 fluid, 1 light, 2 heavy, 3 and up gridlock.
pub fn severity_to_level(sev: u8) -> (r: TrafficLevel)
    ensures
        r == level_of_severity(sev as int),
{
    match sev {
        0 => TrafficLevel::Fluid,
        1 => TrafficLevel::Light,
        2 => TrafficLevel::Heavy,
        _ => TrafficLevel::Gridlock,
    }
}

/// A level's severity maps back to the level, and a severity from 0 to 3
/// comes back from its level.
pub proof fn lemma_severity_round_trip(l: TrafficLevel, sev: u8)
    ensures
        level_of_severity(spec_severity(l) as int) == l,
        sev <= 3 ==> spec_severity(level_of_severity(sev as int)) == sev,
{
}

/// Footways and other local roads never reach gridlock, whatever the
/// hour and the hash; arterials never drop to fluid.
pub proof fn lemma_traffic_bounds(importance: Seq<char>, period: Period, hash: u64)
    ensures
        road_kind(importance) is Local ==> spec_level_for(importance, period, hash)
            != TrafficLevel::Gridlock,
        road_kind(importance) is Arterial ==> spec_level_for(importance, period, hash)
            != TrafficLevel::Fluid,
{
}

/// The synthetic overlay: one level per road, in road order.
pub struct TrafficOverlay {
    pub source: TrafficSource,
    pub segments: Vec<(usize, TrafficLevel)>,
}

/// The overlay for roads given by OSM tag and hash, at an hour of a
/// weekday (0 = Monday).
pub fn synthetic_overlay(roads: &Vec<(String, u64)>, weekday: u32, hour: u32) -> (o:
    TrafficOverlay)
    ensures
        o.source == TrafficSource::Synthetic,
        o.segments@.len() == roads@.len(),
        forall|i: int|
            0 <= i < roads@.len() ==> (#[trigger] o.segments@[i]) == (
                i as usize,
                spec_level_for(roads@[i].0@, period_of(weekday, hour), roads@[i].1),
            ),
{
    let period = period_for(weekday, hour);
    let mut segments: Vec<(usize, TrafficLevel)> = Vec::new();
    for i in 0..roads.len()
        invariant
            period == period_of(weekday, hour),
            segments@.len() == i,
            forall|k: int|
                0 <= k < i ==> (#[trigger] segments@[k]) == (
                    k as usize,
                    spec_level_for(roads@[k].0@, period, roads@[k].1),
                ),
    {
        let level = level_for(roads[i].0.as_str(), period, roads[i].1);
        segments.push((i, level));
    }
    TrafficOverlay { source: TrafficSource::Synthetic, segments }
}

// ─── Keys ───────────────────────────────────────────────────────────────

/// What a key asks of the City screen.
#[derive(Debug, Clone, Copy, PartialEq, Eq, Structural)]
pub enum CityCommand {
    PanWest,
    PanEast,
    PanNorth,
    PanSouth,
    ZoomIn,
    ZoomOut,
    Refresh,
    ToggleUnits,
    NextCity,
    PickCity,
    ToggleTraffic,
    ToggleWeather,
}

/// The City key map: `h`/`l`/`k`/`j` and the arrows pan, `+`/`=` and
/// `-`/`_` zoom, `r` refreshes, `u` switches units, `c` cycles the city,
/// `C` opens the city picker, `t` and `w` toggle the traffic overlay and
/// the weather panel.
pub fn city_command(key: Key) -> (r: Option<CityCommand>)
    ensures
        (key == Key::Char('h') || key == Key::Left) ==> r == Some(CityCommand::PanWest),
        (key == Key::Char('l') || key == Key::Right) ==> r == Some(CityCommand::PanEast),
        (key == Key::Char('k') || key == Key::Up) ==> r == Some(CityCommand::PanNorth),
        (key == Key::Char('j') || key == Key::Down) ==> r == Some(CityCommand::PanSouth),
        (key == Key::Char('+') || key == Key::Char('=')) ==> r == Some(CityCommand::ZoomIn),
        (key == Key::Char('-') || key == Key::Char('_')) ==> r == Some(CityCommand::ZoomOut),
        key == Key::Char('r') ==> r == Some(CityCommand::Refresh),
        key == Key::Char('u') ==> r == Some(CityCommand::ToggleUnits),
        key == Key::Char('c') ==> r == Some(CityCommand::NextCity),
        key == Key::Char('C') ==> r == Some(CityCommand::PickCity),
        key == Key::Char('t') ==> r == Some(CityCommand::ToggleTraffic),
        key == Key::Char('w') ==> r == Some(CityCommand::ToggleWeather),
        !(key == Key::Char('h') || key == Key::Left || key == Key::Char('l') || key == Key::Right
            || key == Key::Char('k') || key == Key::Up || key == Key::Char('j') || key == Key::Down
            || key == Key::Char('+') || key == Key::Char('=') || key == Key::Char('-') || key
            == Key::Char('_') || key == Key::Char('r') || key == Key::Char('u') || key == Key::Char(
            'c',
        ) || key == Key::Char('C') || key == Key::Char('t') || key == Key::Char('w')) ==> r
            is None,
{
    if key == Key::Char('h') || key == Key::Left {
        Some(CityCommand::PanWest)
    } else if key == Key::Char('l') || key == Key::Right {
        Some(CityCommand::PanEast)
    } else if key == Key::Char('k') || key == Key::Up {
        Some(CityCommand::PanNorth)
    } else if key == Key::Char('j') || key == Key::Down {
        Some(CityCommand::PanSouth)
    } else if key == Key::Char('+') || key == Key::Char('=') {
        Some(CityCommand::ZoomIn)
    } else if key == Key::Char('-') || key == Key::Char('_') {
        Some(CityCommand::ZoomOut)
    } else if key == Key::Char('r') {
        Some(CityCommand::Refresh)
    } else if key == Key::Char('u') {
        Some(CityCommand::ToggleUnits)
    } else if key == Key::Char('c') {
        Some(CityCommand::NextCity)
    } else if key == Key::Char('C') {
        Some(CityCommand::PickCity)
    } else if key == Key::Char('t') {
        Some(CityCommand::ToggleTraffic)
    } else if key == Key::Char('w') {
        Some(CityCommand::ToggleWeather)
    } else {
        None
    }
}

// ─── Weather icon ───────────────────────────────────────────────────────

/// The picture a weather code is drawn with.
#[derive(Debug, Clone, Copy, PartialEq, Eq, Structural)]
pub enum IconKind {
    ClearDay,
    ClearNight,
    PartlyDay,
    PartlyNight,
    Overcast,
    Fog,
    Drizzle,
    Rain,
    Snow,
    Thunder,
    Unknown,
}

/// The picture for a WMO weather code, by day or night: 0 clear, 1–2
/// partly cloudy (both with day and night variants), 3 overcast, 45 and
/// 48 fog, 51–57 drizzle, 61–67 and 80–82 rain, 71–77 and 85–86 snow,
/// 95–99 thunder, anything else unknown.
pub open spec fn icon_kind_of(wmo: u8, is_day: bool) -> IconKind {
    if wmo == 0 {
        if is_day {
            IconKind::ClearDay
        } else {
            IconKind::ClearNight
        }
    } else if 1 <= wmo <= 2 {
        if is_day {
            IconKind::PartlyDay
        } else {
            IconKind::PartlyNight
        }
    } else if wmo == 3 {
        IconKind::Overcast
    } else if wmo == 45 || wmo == 48 {
        IconKind::Fog
    } else if 51 <= wmo <= 57 {
        IconKind::Drizzle
    } else if (61 <= wmo <= 67) || (80 <= wmo <= 82) {
        IconKind::Rain
    } else if (71 <= wmo <= 77) || (85 <= wmo <= 86) {
        IconKind::Snow
    } else if 95 <= wmo <= 99 {
        IconKind::Thunder
    } else {
        IconKind::Unknown
    }
}

/// Every rain code, steady (61 to 67) or showers (80 to 82), shows the
/// rain picture by day and by night; only clear and partly cloudy skies
/// (codes 0 to 2) have a day and a night picture, every other code looks
/// the same at any hour.
pub proof fn lemma_icon_rain_and_daylight(wmo: u8, is_day: bool)
    ensures
        (61 <= wmo <= 67 || 80 <= wmo <= 82) ==> icon_kind_of(wmo, is_day) == IconKind::Rain,
        icon_kind_of(wmo, is_day) == IconKind::Rain ==> (61 <= wmo <= 67 || 80 <= wmo <= 82),
        wmo > 2 ==> icon_kind_of(wmo, true) == icon_kind_of(wmo, false),
        wmo <= 2 ==> icon_kind_of(wmo, true) != icon_kind_of(wmo, false),
        (71 <= wmo <= 77 || 85 <= wmo <= 86) ==> icon_kind_of(wmo, is_day) == IconKind::Snow,
        95 <= wmo <= 99 ==> icon_kind_of(wmo, is_day) == IconKind::Thunder,
        51 <= wmo <= 57 ==> icon_kind_of(wmo, is_day) == IconKind::Drizzle,
        (wmo == 45 || wmo == 48) ==> icon_kind_of(wmo, is_day) == IconKind::Fog,
{
}

/// The picture for a weather code (see `icon_kind_of`).
pub fn icon_kind(wmo: u8, is_day: bool) -> (k: IconKind)
    ensures
        k == icon_kind_of(wmo, is_day),
{
    if wmo == 0 {
        if is_day {
            IconKind::ClearDay
        } else {
            IconKind::ClearNight
        }
    } else if 1 <= wmo && wmo <= 2 {
        if is_day {
            IconKind::PartlyDay
        } else {
            IconKind::PartlyNight
        }
    } else if wmo == 3 {
        IconKind::Overcast
    } else if wmo == 45 || wmo == 48 {
        IconKind::Fog
    } else if 51 <= wmo && wmo <= 57 {
        IconKind::Drizzle
    } else if (61 <= wmo && wmo <= 67) || (80 <= wmo && wmo <= 82) {
        IconKind::Rain
    } else if (71 <= wmo && wmo <= 77) || (85 <= wmo && wmo <= 86) {
        IconKind::Snow
    } else if 95 <= wmo && wmo <= 99 {
        IconKind::Thunder
    } else {
        IconKind::Unknown
    }
}

/// The colours the weather art uses.
#[derive(Debug, Clone, Copy, PartialEq, Eq, Structural)]
pub enum Hue {
    Yellow,
    Blue,
    Gray,
    DarkGray,
    Cyan,
    White,
}

/// A run of art in one colour.
pub type ArtSpan = (&'static str, Hue);

/// The views of a row of art.
pub open spec fn row_view(r: Seq<ArtSpan>) -> Seq<(Seq<char>, Hue)> {
    r.map_values(|s: ArtSpan| (s.0@, s.1))
}

/// The four rows of a picture, each a list of coloured runs.
pub open spec fn art_of(k: IconKind) -> Seq<Seq<(Seq<char>, Hue)>> {
    match k {
        IconKind::ClearDay => seq![
            seq![("    \\   / "@, Hue::Yellow)],
            seq![("     .-.  "@, Hue::Yellow)],
            seq![("  -(   )- "@, Hue::Yellow)],
            seq![("     `-'  "@, Hue::Yellow)],
        ],
        IconKind::ClearNight => seq![
            seq![("     .-.  "@, Hue::Blue)],
            seq![("    (   ) "@, Hue::Blue)],
            seq![("     `-'  "@, Hue::Blue)],
            seq![("    *  *  "@, Hue::Blue)],
        ],
        IconKind::PartlyDay => seq![
            seq![(" \\  /"@, Hue::Yellow), ("     "@, Hue::Gray)],
            seq![("  .--"@, Hue::Yellow), ("--. "@, Hue::Gray)],
            seq![("-(   "@, Hue::Yellow), ("  ) "@, Hue::Gray)],
            seq![("  `----' "@, Hue::Gray)],
        ],
        IconKind::PartlyNight => seq![
            seq![("  .-"@, Hue::Blue), ("---.  "@, Hue::Gray)],
            seq![(" (  "@, Hue::Blue), ("   )  "@, Hue::Gray)],
            seq![("  `---'   "@, Hue::Gray)],
            seq![("          "@, Hue::DarkGray)],
        ],
        IconKind::Overcast => seq![
            seq![("  .-----. "@, Hue::Gray)],
            seq![(" (       )"@, Hue::Gray)],
            seq![("  `-----' "@, Hue::Gray)],
            seq![(" overcast "@, Hue::DarkGray)],
        ],
        IconKind::Fog => seq![
            seq![("_ - _ - _ "@, Hue::DarkGray)],
            seq![(" _ - _ -  "@, Hue::DarkGray)],
            seq![("_ - _ - _ "@, Hue::DarkGray)],
            seq![("   fog    "@, Hue::DarkGray)],
        ],
        IconKind::Drizzle => seq![
            seq![("  .-----. "@, Hue::Gray)],
            seq![(" (  drz  )"@, Hue::Gray)],
            seq![("  `-----' "@, Hue::Gray)],
            seq![("  ' ' ' ' "@, Hue::Cyan)],
        ],
        IconKind::Rain => seq![
            seq![("   .-.    "@, Hue::Gray)],
            seq![("  (   )   "@, Hue::Gray)],
            seq![(" / / / /  "@, Hue::Cyan)],
            seq![("/ / / /   "@, Hue::Cyan)],
        ],
        IconKind::Snow => seq![
            seq![("  .-----. "@, Hue::Gray)],
            seq![(" ( snow  )"@, Hue::Gray)],
            seq![("  `-----' "@, Hue::Gray)],
            seq![(" * * * *  "@, Hue::White)],
        ],
        IconKind::Thunder => seq![
            seq![("  .-----. "@, Hue::DarkGray)],
            seq![(" (  ⚡   )"@, Hue::Yellow)],
            seq![("  `-----' "@, Hue::DarkGray)],
            seq![(" /|/|/|/  "@, Hue::Yellow)],
        ],
        IconKind::Unknown => seq![
            seq![("  .-----. "@, Hue::DarkGray)],
            seq![(" (  ???  )"@, Hue::DarkGray)],
            seq![("  `-----' "@, Hue::DarkGray)],
            seq![("          "@, Hue::DarkGray)],
        ],
    }
}

fn one(text: &'static str, hue: Hue) -> (r: Vec<ArtSpan>)
    ensures
        row_view(r@) == seq![(text@, hue)],
{
    let v = vec![(text, hue)];
    proof {
        assert(row_view(v@) =~= seq![(text@, hue)]);
    }
    v
}

fn two(a: &'static str, ha: Hue, b: &'static str, hb: Hue) -> (r: Vec<ArtSpan>)
    ensures
        row_view(r@) == seq![(a@, ha), (b@, hb)],
{
    let v = vec![(a, ha), (b, hb)];
    proof {
        assert(row_view(v@) =~= seq![(a@, ha), (b@, hb)]);
    }
    v
}

fn four(r0: Vec<ArtSpan>, r1: Vec<ArtSpan>, r2: Vec<ArtSpan>, r3: Vec<ArtSpan>) -> (r: Vec<Vec<ArtSpan>>)
    ensures
        r@.len() == 4,
        row_view(r@[0]@) == row_view(r0@),
        row_view(r@[1]@) == row_view(r1@),
        row_view(r@[2]@) == row_view(r2@),
        row_view(r@[3]@) == row_view(r3@),
{
    vec![r0, r1, r2, r3]
}

/// The views of a picture's rows.
pub open spec fn art_view(a: Seq<Vec<ArtSpan>>) -> Seq<Seq<(Seq<char>, Hue)>> {
    a.map_values(|r: Vec<ArtSpan>| row_view(r@))
}

/// The four rows of art for a weather code by day or night (see
/// `icon_kind_of` and `art_of`).
pub fn weather_icon(wmo: u8, is_day: bool) -> (r: Vec<Vec<ArtSpan>>)
    ensures
        art_view(r@) == art_of(icon_kind_of(wmo, is_day)),
        r@.len() == 4,
{
    let k = icon_kind(wmo, is_day);
    let r = match k {
        IconKind::ClearDay => four(
            one("    \\   / ", Hue::Yellow),
            one("     .-.  ", Hue::Yellow),
            one("  -(   )- ", Hue::Yellow),
            one("     `-'  ", Hue::Yellow),
        ),
        IconKind::ClearNight => four(
            one("     .-.  ", Hue::Blue),
            one("    (   ) ", Hue::Blue),
            one("     `-'  ", Hue::Blue),
            one("    *  *  ", Hue::Blue),
        ),
        IconKind::PartlyDay => four(
            two(" \\  /", Hue::Yellow, "     ", Hue::Gray),
            two("  .--", Hue::Yellow, "--. ", Hue::Gray),
            two("-(   ", Hue::Yellow, "  ) ", Hue::Gray),
            one("  `----' ", Hue::Gray),
        ),
        IconKind::PartlyNight => four(
            two("  .-", Hue::Blue, "---.  ", Hue::Gray),
            two(" (  ", Hue::Blue, "   )  ", Hue::Gray),
            one("  `---'   ", Hue::Gray),
            one("          ", Hue::DarkGray),
        ),
        IconKind::Overcast => four(
            one("  .-----. ", Hue::Gray),
            one(" (       )", Hue::Gray),
            one("  `-----' ", Hue::Gray),
            one(" overcast ", Hue::DarkGray),
        ),
        IconKind::Fog => four(
            one("_ - _ - _ ", Hue::DarkGray),
            one(" _ - _ -  ", Hue::DarkGray),
            one("_ - _ - _ ", Hue::DarkGray),
            one("   fog    ", Hue::DarkGray),
        ),
        IconKind::Drizzle => four(
            one("  .-----. ", Hue::Gray),
            one(" (  drz  )", Hue::Gray),
            one("  `-----' ", Hue::Gray),
            one("  ' ' ' ' ", Hue::Cyan),
        ),
        IconKind::Rain => four(
            one("   .-.    ", Hue::Gray),
            one("  (   )   ", Hue::Gray),
            one(" / / / /  ", Hue::Cyan),
            one("/ / / /   ", Hue::Cyan),
        ),
        IconKind::Snow => four(
            one("  .-----. ", Hue::Gray),
            one(" ( snow  )", Hue::Gray),
            one("  `-----' ", Hue::Gray),
            one(" * * * *  ", Hue::White),
        ),
        IconKind::Thunder => four(
            one("  .-----. ", Hue::DarkGray),
            one(" (  ⚡   )", Hue::Yellow),
            one("  `-----' ", Hue::DarkGray),
            one(" /|/|/|/  ", Hue::Yellow),
        ),
        IconKind::Unknown => four(
            one("  .-----. ", Hue::DarkGray),
            one(" (  ???  )", Hue::DarkGray),
            one("  `-----' ", Hue::DarkGray),
            one("          ", Hue::DarkGray),
        ),
    };
    proof {
        assert(art_view(r@) =~= art_of(k));
    }
    r
}

// ─── Locating by IP ─────────────────────────────────────────────────────

/// Why locating by IP address failed.
#[derive(Debug, Clone, PartialEq, Eq)]
pub enum GeoError {
    /// The HTTP request failed; the error's text.
    Network(String),
    /// The service answered with a failure status (most often its rate
    /// limit).
    RateLimited,
    /// The answer lacked something required.
    BadPayload(String),
}

/// The fields of a locator answer the screen reads: its status, the
/// place's names (each may be missing), and whether it carried a
/// latitude and a longitude.
pub struct IpAnswer {
    pub status: String,
    pub city: Option<String>,
    pub country: Option<String>,
    pub country_code: Option<String>,
    pub region_name: Option<String>,
    pub timezone: Option<String>,
    pub has_lat: bool,
    pub has_lon: bool,
}

/// A located place's names: the city (`(unknown)` when missing), and the
/// country, country code, region and time zone (empty when missing).
pub struct PlaceNames {
    pub name: String,
    pub country: String,
    pub country_code: String,
    pub region: String,
    pub timezone: String,
}

/// The text of an optional string, `d` when it is missing.
pub open spec fn or_text(o: Option<String>, d: Seq<char>) -> Seq<char> {
    match o {
        Some(s) => s@,
        None => d,
    }
}

fn text_or(o: &Option<String>, d: &str) -> (r: String)
    ensures
        r@ == or_text(*o, d@),
{
    match o {
        Some(s) => s.clone(),
        None => d.to_owned(),
    }
}

/// What a locator answer comes to: rate-limited unless its status is
/// `success`; then a missing latitude, else a missing longitude, is a bad
/// payload; else the place's names with their defaults.
pub fn place_of(a: &IpAnswer) -> (r: Result<PlaceNames, GeoError>)
    ensures
        a.status@ != "success"@ ==> r == Err::<PlaceNames, GeoError>(GeoError::RateLimited),
        a.status@ == "success"@ && !a.has_lat ==> (r matches Err(GeoError::BadPayload(m)) && m@
            == "missing lat"@),
        a.status@ == "success"@ && a.has_lat && !a.has_lon ==> (r matches Err(GeoError::BadPayload(m))
            && m@ == "missing lon"@),
        a.status@ == "success"@ && a.has_lat && a.has_lon ==> (r matches Ok(p) && p.name@ == or_text(
            a.city,
            "(unknown)"@,
        ) && p.country@ == or_text(a.country, Seq::empty()) && p.country_code@ == or_text(
            a.country_code,
            Seq::empty(),
        ) && p.region@ == or_text(a.region_name, Seq::empty()) && p.timezone@ == or_text(
            a.timezone,
            Seq::empty(),
        )),
{
    if !crate::text::same_str(a.status.as_str(), "success") {
        return Err(GeoError::RateLimited);
    }
    if !a.has_lat {
        return Err(GeoError::BadPayload("missing lat".to_owned()));
    }
    if !a.has_lon {
        return Err(GeoError::BadPayload("missing lon".to_owned()));
    }
    proof {
        assert(""@ =~= Seq::<char>::empty()) by {
            reveal_strlit("");
        }
    }
    Ok(
        PlaceNames {
            name: text_or(&a.city, "(unknown)"),
            country: text_or(&a.country, ""),
            country_code: text_or(&a.country_code, ""),
            region: text_or(&a.region_name, ""),
            timezone: text_or(&a.timezone, ""),
        },
    )
}

// ─── Weather pane ───────────────────────────────────────────────────────

/// The sparkline of `p` (see `precip_sparkline`).
pub open spec fn sparkline_text(p: Seq<u8>) -> Seq<char> {
    Seq::new(p.len(), |i: int| spark_bars()[spark_level(p[i])])
}

/// The texts the weather pane shows as they are drawn: the condition's
/// name, the temperature and the felt temperature in the chosen units,
/// the wind speed in the chosen units, and when the reading was fetched.
pub struct WeatherTexts {
    pub label: String,
    pub temp: String,
    pub feels: String,
    pub wind: String,
    pub fetched: String,
}

/// A pane line of a dimmed label and a plain value.
pub open spec fn label_row(label: Seq<char>, value: Seq<char>) -> Seq<(Seq<char>, Tone)> {
    seq![(label, Tone::Dim), (value, Tone::Fg)]
}

/// The wind value: the direction in degrees with its compass point, `@`
/// and the speed; the speed alone without a direction.
pub open spec fn wind_text(d: Option<u16>, speed: Seq<char>) -> Seq<char> {
    match d {
        Some(deg) => dec_text(deg as nat) + " "@ + compass_points()[compass_sector(deg)] + " @ "@ + speed,
        None => speed,
    }
}

/// The reading's lines: condition, temperatures, humidity, wind, the next
/// twelve hours' precipitation when known, and the fetch time.
pub open spec fn reading_rows(w: Reading, t: WeatherTexts) -> Seq<Seq<(Seq<char>, Tone)>> {
    let head = seq![
        label_row("  conditions  "@, t.label@),
        label_row("  temp        "@, t.temp@),
        label_row("  feels like  "@, t.feels@),
        label_row("  humidity    "@, dec_text(w.humidity_pct as nat) + "%"@),
        label_row("  wind        "@, wind_text(w.wind_dir_deg, t.wind@)),
    ];
    let precip = match w.next_12h_precip_pct {
        Some(p) => seq![seq![("  next 12h    "@, Tone::Dim)], seq![("    "@ + sparkline_text(p@), Tone::Fg)]],
        None => Seq::empty(),
    };
    head + precip + seq![seq![("  fetched "@ + t.fetched@, Tone::Dim)]]
}

/// The map legend and the keys under the weather.
pub open spec fn legend_rows(traffic_on: bool) -> Seq<Seq<(Seq<char>, Tone)>> {
    seq![
        Seq::empty(),
        seq![(if traffic_on {
            "  traffic · synthetic"@
        } else {
            "  traffic · off"@
        }, Tone::Dim)],
        seq![("    fluid     "@, Tone::Dim), ("·"@, Tone::Fg)],
        seq![("    light     "@, Tone::Dim), ("+"@, Tone::Fg)],
        seq![("    heavy     "@, Tone::Dim), ("#"@, Tone::Fg)],
        seq![("    gridlock  "@, Tone::Dim), ("@"@, Tone::Fg)],
        Seq::empty(),
        seq![
            ("  h/j/k/l"@, Tone::Accent),
            (" pan  "@, Tone::Dim),
            ("+/-"@, Tone::Accent),
            (" zoom  "@, Tone::Dim),
            ("c"@, Tone::Accent),
            (" city  "@, Tone::Dim),
            ("t"@, Tone::Accent),
            (" traffic  "@, Tone::Dim),
            ("r"@, Tone::Accent),
            (" refresh"@, Tone::Dim),
        ],
    ]
}

fn label_line(label: &str, value: String) -> (r: Vec<TextRun>)
    ensures
        crate::views::row_view(r@) == label_row(label@, value@),
{
    let r = vec![run(label.to_owned(), Tone::Dim), run(value, Tone::Fg)];
    proof {
        assert(crate::views::row_view(r@) =~= label_row(label@, value@));
    }
    r
}

fn legend_line(a: &str, ta: Tone, b: &str, tb: Tone) -> (r: Vec<TextRun>)
    ensures
        crate::views::row_view(r@) == seq![(a@, ta), (b@, tb)],
{
    let r = vec![run(a.to_owned(), ta), run(b.to_owned(), tb)];
    proof {
        assert(crate::views::row_view(r@) =~= seq![(a@, ta), (b@, tb)]);
    }
    r
}

/// The weather pane: its title (` Weather `, or ` Weather · waiting `
/// before the first reading) and its lines: the reading's (a hint when
/// there is none), then the legend and keys.
pub fn weather_pane(w: Option<&Reading>, t: &WeatherTexts, traffic_on: bool) -> (r: (String, Vec<Vec<TextRun>>))
    ensures
        r.0@ == if w is Some {
            " Weather "@
        } else {
            " Weather · waiting "@
        },
        rows_view(r.1@) == match w {
            Some(x) => reading_rows(*x, *t),
            None => seq![seq![("  (no data yet — press r to refresh)"@, Tone::Dim)]],
        } + legend_rows(traffic_on),
{
    let mut rows: Vec<Vec<TextRun>> = Vec::new();
    let title = match w {
        Some(x) => {
            push_row(&mut rows, label_line("  conditions  ", t.label.clone()));
            push_row(&mut rows, label_line("  temp        ", t.temp.clone()));
            push_row(&mut rows, label_line("  feels like  ", t.feels.clone()));
            push_row(&mut rows, label_line("  humidity    ", concat(decimal(x.humidity_pct as u64).as_str(), "%")));
            let wind = match x.wind_dir_deg {
                Some(deg) => {
                    let a = concat(decimal(deg as u64).as_str(), " ");
                    let b = concat(a.as_str(), compass_point(deg));
                    let c = concat(b.as_str(), " @ ");
                    concat(c.as_str(), t.wind.as_str())
                },
                None => t.wind.clone(),
            };
            push_row(&mut rows, label_line("  wind        ", wind));
            match &x.next_12h_precip_pct {
                Some(p) => {
                    push_row(&mut rows, single("  next 12h    ".to_owned(), Tone::Dim));
                    let spark = precip_sparkline(p.as_slice());
                    proof {
                        assert(spark@ =~= sparkline_text(p@));
                    }
                    push_row(&mut rows, single(concat("    ", spark.as_str()), Tone::Fg));
                },
                None => {},
            }
            push_row(&mut rows, single(concat("  fetched ", t.fetched.as_str()), Tone::Dim));
            proof {
                assert(rows_view(rows@) =~= reading_rows(*x, *t));
            }
            " Weather ".to_owned()
        },
        None => {
            push_row(&mut rows, single("  (no data yet — press r to refresh)".to_owned(), Tone::Dim));
            proof {
                assert(rows_view(rows@) =~= seq![seq![("  (no data yet — press r to refresh)"@, Tone::Dim)]]);
            }
            " Weather · waiting ".to_owned()
        },
    };
    let ghost top = rows_view(rows@);
    let blank: Vec<TextRun> = Vec::new();
    proof {
        assert(crate::views::row_view(blank@) =~= Seq::<(Seq<char>, Tone)>::empty());
    }
    push_row(&mut rows, blank);
    push_row(
        &mut rows,
        single(
            (if traffic_on {
                "  traffic · synthetic"
            } else {
                "  traffic · off"
            }).to_owned(),
            Tone::Dim,
        ),
    );
    push_row(&mut rows, legend_line("    fluid     ", Tone::Dim, "·", Tone::Fg));
    push_row(&mut rows, legend_line("    light     ", Tone::Dim, "+", Tone::Fg));
    push_row(&mut rows, legend_line("    heavy     ", Tone::Dim, "#", Tone::Fg));
    push_row(&mut rows, legend_line("    gridlock  ", Tone::Dim, "@", Tone::Fg));
    let blank2: Vec<TextRun> = Vec::new();
    proof {
        assert(crate::views::row_view(blank2@) =~= Seq::<(Seq<char>, Tone)>::empty());
    }
    push_row(&mut rows, blank2);
    let keys = vec![
        run("  h/j/k/l".to_owned(), Tone::Accent),
        run(" pan  ".to_owned(), Tone::Dim),
        run("+/-".to_owned(), Tone::Accent),
        run(" zoom  ".to_owned(), Tone::Dim),
        run("c".to_owned(), Tone::Accent),
        run(" city  ".to_owned(), Tone::Dim),
        run("t".to_owned(), Tone::Accent),
        run(" traffic  ".to_owned(), Tone::Dim),
        run("r".to_owned(), Tone::Accent),
        run(" refresh".to_owned(), Tone::Dim),
    ];
    proof {
        assert(crate::views::row_view(keys@) =~= legend_rows(traffic_on)[7]);
    }
    push_row(&mut rows, keys);
    proof {
        assert(rows_view(rows@) =~= top + legend_rows(traffic_on));
    }
    (title, rows)
}

// ─── Traffic paint ──────────────────────────────────────────────────────

/// The dots of a list of lines, one after another.
pub open spec fn flat(ps: Seq<Seq<(int, int)>>) -> Seq<(int, int)>
    decreases ps.len(),
{
    if ps.len() == 0 {
        Seq::empty()
    } else {
        flat(ps.drop_last()) + ps.last()
    }
}

/// The dots of a list of passes, one after another.
pub open spec fn flat2(pss: Seq<Seq<Seq<(int, int)>>>) -> Seq<(int, int)>
    decreases pss.len(),
{
    if pss.len() == 0 {
        Seq::empty()
    } else {
        flat2(pss.drop_last()) + flat(pss.last())
    }
}

/// The dots of the roads' paint, road after road.
pub open spec fn flat3(all: Seq<Seq<Seq<Seq<(int, int)>>>>) -> Seq<(int, int)>
    decreases all.len(),
{
    if all.len() == 0 {
        Seq::empty()
    } else {
        flat3(all.drop_last()) + flat2(all.last())
    }
}

/// `ps` holds the Bresenham lines between consecutive points of `pts`,
/// all moved by (`ox`, `oy`).
pub open spec fn offset_paths_ok(pts: Seq<(i32, i32)>, ox: int, oy: int, ps: Seq<Seq<(int, int)>>) -> bool {
    &&& ps.len() == if pts.len() > 0 {
        pts.len() - 1
    } else {
        0
    }
    &&& forall|k: int|
        0 <= k < ps.len() ==> line_path(
            #[trigger] ps[k],
            pts[k].0 + ox,
            pts[k].1 + oy,
            pts[k + 1].0 + ox,
            pts[k + 1].1 + oy,
        )
}

/// The offsets at which a road of a traffic level is drawn again over
/// its plain stroke: none when fluid, one dot down when light, two when
/// heavy, and when gridlocked in place, two down, and one down and right.
pub open spec fn level_offsets(l: TrafficLevel) -> Seq<(int, int)> {
    match l {
        TrafficLevel::Fluid => Seq::empty(),
        TrafficLevel::Light => seq![(0, 1)],
        TrafficLevel::Heavy => seq![(0, 2)],
        TrafficLevel::Gridlock => seq![(0, 0), (0, 2), (1, 1)],
    }
}

/// `pss` holds, per offset, the lines of a road moved by it.
pub open spec fn level_paths_ok(pts: Seq<(i32, i32)>, offs: Seq<(int, int)>, pss: Seq<Seq<Seq<(int, int)>>>) -> bool {
    &&& pss.len() == offs.len()
    &&& forall|j: int| 0 <= j < pss.len() ==> offset_paths_ok(pts, offs[j].0, offs[j].1, #[trigger] pss[j])
}

proof fn lemma_flat_push(ps: Seq<Seq<(int, int)>>, p: Seq<(int, int)>)
    ensures
        flat(ps.push(p)) == flat(ps) + p,
{
    assert(ps.push(p).drop_last() =~= ps);
}

fn offset_lines(grid: &mut BrailleGrid, pts: &Vec<(i32, i32)>, ox: i32, oy: i32)
    requires
        old(grid).wf(),
        forall|k: int| 0 <= k < pts@.len() ==> coord_ok(#[trigger] pts@[k]),
        0 <= ox <= 1,
        0 <= oy <= 2,
    ensures
        final(grid).wf(),
        final(grid)@.w_chars == old(grid)@.w_chars,
        final(grid)@.h_chars == old(grid)@.h_chars,
        exists|ps: Seq<Seq<(int, int)>>|
            offset_paths_ok(pts@, ox as int, oy as int, ps) && final(grid)@.dots == painted(
                old(grid)@.dots,
                old(grid)@.w_chars,
                old(grid)@.h_chars,
                flat(ps),
            ),
{
    let ghost w = grid@.w_chars;
    let ghost h = grid@.h_chars;
    let ghost d0 = grid@.dots;
    let ghost mut ps: Seq<Seq<(int, int)>> = Seq::empty();
    let n = pts.len();
    if n == 0 {
        proof {
            assert(offset_paths_ok(pts@, ox as int, oy as int, ps));
        }
        return;
    }
    let mut k: usize = 1;
    while k < n
        invariant
            grid.wf(),
            grid@.w_chars == w,
            grid@.h_chars == h,
            n == pts@.len() >= 1,
            forall|j: int| 0 <= j < pts@.len() ==> coord_ok(#[trigger] pts@[j]),
            0 <= ox <= 1,
            0 <= oy <= 2,
            1 <= k <= n,
            ps.len() == k - 1,
            forall|j: int|
                0 <= j < ps.len() ==> line_path(
                    #[trigger] ps[j],
                    pts@[j].0 + ox,
                    pts@[j].1 + oy,
                    pts@[j + 1].0 + ox,
                    pts@[j + 1].1 + oy,
                ),
            grid@.dots == painted(d0, w, h, flat(ps)),
        decreases n - k,
    {
        let (x0, y0) = pts[k - 1];
        let (x1, y1) = pts[k];
        assert(coord_ok(pts@[k - 1]) && coord_ok(pts@[k as int]));
        let ghost mid = grid@.dots;
        line(grid, x0 + ox, y0 + oy, x1 + ox, y1 + oy);
        proof {
            let p = choose|p: Seq<(int, int)>|
                line_path(p, (x0 + ox) as int, (y0 + oy) as int, (x1 + ox) as int, (y1 + oy) as int)
                    && grid@.dots == painted(mid, w, h, p);
            lemma_painted_concat(d0, w, h, flat(ps), p);
            lemma_flat_push(ps, p);
            ps = ps.push(p);
        }
        k += 1;
    }
    proof {
        assert(offset_paths_ok(pts@, ox as int, oy as int, ps));
    }
}

/// Paint a road's projected points again for its traffic level: the
/// lines between consecutive points, moved by each of the level's offsets
/// (see `level_offsets`) in turn.
pub fn paint_level(grid: &mut BrailleGrid, pts: &Vec<(i32, i32)>, level: TrafficLevel)
    requires
        old(grid).wf(),
        forall|k: int| 0 <= k < pts@.len() ==> coord_ok(#[trigger] pts@[k]),
    ensures
        final(grid).wf(),
        final(grid)@.w_chars == old(grid)@.w_chars,
        final(grid)@.h_chars == old(grid)@.h_chars,
        exists|pss: Seq<Seq<Seq<(int, int)>>>|
            level_paths_ok(pts@, level_offsets(level), pss) && final(grid)@.dots == painted(
                old(grid)@.dots,
                old(grid)@.w_chars,
                old(grid)@.h_chars,
                flat2(pss),
            ),
{
    let ghost w = grid@.w_chars;
    let ghost h = grid@.h_chars;
    let ghost d0 = grid@.dots;
    let offs: Vec<(i32, i32)> = match level {
        TrafficLevel::Fluid => Vec::new(),
        TrafficLevel::Light => vec![(0, 1)],
        TrafficLevel::Heavy => vec![(0, 2)],
        TrafficLevel::Gridlock => vec![(0, 0), (0, 2), (1, 1)],
    };
    let ghost offv = offs@.map_values(|o: (i32, i32)| (o.0 as int, o.1 as int));
    proof {
        assert(offv =~= level_offsets(level));
    }
    let ghost mut pss: Seq<Seq<Seq<(int, int)>>> = Seq::empty();
    let mut j: usize = 0;
    while j < offs.len()
        invariant
            grid.wf(),
            grid@.w_chars == w,
            grid@.h_chars == h,
            forall|k: int| 0 <= k < pts@.len() ==> coord_ok(#[trigger] pts@[k]),
            offv == offs@.map_values(|o: (i32, i32)| (o.0 as int, o.1 as int)),
            forall|i: int| 0 <= i < offs@.len() ==> 0 <= (#[trigger] offs@[i]).0 <= 1 && 0 <= offs@[i].1 <= 2,
            j <= offs@.len(),
            pss.len() == j,
            forall|i: int| 0 <= i < j ==> offset_paths_ok(pts@, offv[i].0, offv[i].1, #[trigger] pss[i]),
            grid@.dots == painted(d0, w, h, flat2(pss)),
        decreases offs@.len() - j,
    {
        let (ox, oy) = offs[j];
        let ghost mid = grid@.dots;
        offset_lines(grid, pts, ox, oy);
        proof {
            let ps = choose|ps: Seq<Seq<(int, int)>>|
                offset_paths_ok(pts@, ox as int, oy as int, ps) && grid@.dots == painted(mid, w, h, flat(ps));
            lemma_painted_concat(d0, w, h, flat2(pss), flat(ps));
            let old_pss = pss;
            pss = old_pss.push(ps);
            assert(pss.drop_last() =~= old_pss);
            assert forall|i: int| 0 <= i < j + 1 implies offset_paths_ok(pts@, offv[i].0, offv[i].1, #[trigger] pss[i]) by {
                if i < j {
                    assert(pss[i] == old_pss[i]);
                }
            }
        }
        j += 1;
    }
    proof {
        assert(level_paths_ok(pts@, level_offsets(level), pss));
    }
}

/// The level the overlay gives road `i`: that of its last segment for
/// the road, none when it has none.
pub open spec fn road_level(segs: Seq<(usize, TrafficLevel)>, i: int) -> Option<TrafficLevel>
    decreases segs.len(),
{
    if segs.len() == 0 {
        None
    } else if segs.last().0 == i {
        Some(segs.last().1)
    } else {
        road_level(segs.drop_last(), i)
    }
}

/// The offsets road `i` is painted at (see `level_offsets`).
pub open spec fn road_offsets(segs: Seq<(usize, TrafficLevel)>, i: int) -> Seq<(int, int)> {
    match road_level(segs, i) {
        Some(l) => level_offsets(l),
        None => Seq::empty(),
    }
}

fn level_of_road(segs: &Vec<(usize, TrafficLevel)>, i: usize) -> (r: Option<TrafficLevel>)
    ensures
        r == road_level(segs@, i as int),
{
    let mut k = segs.len();
    proof {
        assert(segs@.take(k as int) =~= segs@);
    }
    while k > 0
        invariant
            k <= segs@.len(),
            road_level(segs@, i as int) == road_level(segs@.take(k as int), i as int),
        decreases k,
    {
        proof {
            assert(segs@.take(k as int).drop_last() =~= segs@.take(k - 1));
            assert(segs@.take(k as int).last() == segs@[k - 1]);
        }
        if segs[k - 1].0 == i {
            return Some(segs[k - 1].1);
        }
        k -= 1;
    }
    proof {
        assert(segs@.take(0) =~= Seq::<(usize, TrafficLevel)>::empty());
    }
    None
}

/// Paint the traffic overlay over the roads' projected points: each road
/// with a segment in the overlay is painted again for its level (see
/// `paint_level`), road after road.
pub fn paint_traffic(grid: &mut BrailleGrid, roads: &Vec<Vec<(i32, i32)>>, overlay: &TrafficOverlay)
    requires
        old(grid).wf(),
        forall|i: int, k: int|
            0 <= i < roads@.len() && 0 <= k < roads@[i]@.len() ==> coord_ok(#[trigger] roads@[i]@[k]),
    ensures
        final(grid).wf(),
        final(grid)@.w_chars == old(grid)@.w_chars,
        final(grid)@.h_chars == old(grid)@.h_chars,
        exists|all: Seq<Seq<Seq<Seq<(int, int)>>>>|
            all.len() == roads@.len() && (forall|i: int|
                0 <= i < all.len() ==> level_paths_ok(
                    roads@[i]@,
                    road_offsets(overlay.segments@, i),
                    #[trigger] all[i],
                )) && final(grid)@.dots == painted(
                old(grid)@.dots,
                old(grid)@.w_chars,
                old(grid)@.h_chars,
                flat3(all),
            ),
{
    let ghost w = grid@.w_chars;
    let ghost h = grid@.h_chars;
    let ghost d0 = grid@.dots;
    let ghost mut all: Seq<Seq<Seq<Seq<(int, int)>>>> = Seq::empty();
    let mut i: usize = 0;
    while i < roads.len()
        invariant
            grid.wf(),
            grid@.w_chars == w,
            grid@.h_chars == h,
            forall|a: int, k: int|
                0 <= a < roads@.len() && 0 <= k < roads@[a]@.len() ==> coord_ok(#[trigger] roads@[a]@[k]),
            i <= roads@.len(),
            all.len() == i,
            forall|a: int|
                0 <= a < i ==> level_paths_ok(roads@[a]@, road_offsets(overlay.segments@, a), #[trigger] all[a]),
            grid@.dots == painted(d0, w, h, flat3(all)),
        decreases roads@.len() - i,
    {
        let ghost mid = grid@.dots;
        let ghost pss: Seq<Seq<Seq<(int, int)>>>;
        match level_of_road(&overlay.segments, i) {
            Some(l) => {
                proof {
                    assert forall|k: int| 0 <= k < roads@[i as int]@.len() implies coord_ok(
                        #[trigger] roads@[i as int]@[k],
                    ) by {
                        assert(coord_ok(roads@[i as int]@[k]));
                    }
                }
                paint_level(grid, &roads[i], l);
                proof {
                    pss = choose|q: Seq<Seq<Seq<(int, int)>>>|
                        level_paths_ok(roads@[i as int]@, level_offsets(l), q) && grid@.dots == painted(
                            mid,
                            w,
                            h,
                            flat2(q),
                        );
                }
            },
            None => {
                proof {
                    pss = Seq::empty();
                    assert(flat2(pss) =~= Seq::<(int, int)>::empty());
                    assert(painted(mid, w, h, Seq::<(int, int)>::empty()) == mid);
                }
            },
        }
        proof {
            lemma_painted_concat(d0, w, h, flat3(all), flat2(pss));
            let old_all = all;
            all = old_all.push(pss);
            assert(all.drop_last() =~= old_all);
            assert forall|a: int| 0 <= a < i + 1 implies level_paths_ok(
                roads@[a]@,
                road_offsets(overlay.segments@, a),
                #[trigger] all[a],
            ) by {
                if a < i {
                    assert(all[a] == old_all[a]);
                }
            }
        }
        i += 1;
    }
}

// ─── Road download ──────────────────────────────────────────────────────

/// Whether a downloaded way becomes a road, and of which class: a way
/// with a `highway` tag and at least two points (a way without geometry
/// has none) is a road of that class; any other is dropped.
pub fn road_class_of(highway: Option<String>, point_count: usize) -> (r: Option<String>)
    ensures
        point_count >= 2 ==> r == highway,
        point_count < 2 ==> r is None,
{
    if point_count < 2 {
        None
    } else {
        highway
    }
}

} // verus!
