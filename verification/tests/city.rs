use cyberdeck_tui::city::{
    icon_kind, paint_level, paint_traffic, place_of, road_class_of, severity_to_level, weather_icon,
    weather_pane, GeoError, Hue, IconKind, IpAnswer, Reading, TrafficOverlay, WeatherTexts,
};
use cyberdeck_tui::braille;
use cyberdeck_tui::braille::{draw_polyline, stroke_weight, BrailleGrid};
use cyberdeck_tui::city::{
    city_command, compass_point, level_for, next_12h_precip, period_for, precip_sparkline,
    reading_from_response, synthetic_overlay, CityCommand, CurrentBlock, Period, TrafficLevel,
    TrafficSource, WeatherError,
};
use cyberdeck_tui::ui::Key;

// ─── Weather helpers ───────────────────────────────────────────────────

#[test]
fn compass_point_covers_all_16_sectors() {
    let expected = ["N", "NE", "E", "SE", "S", "SW", "W", "NW"];
    for (deg, want) in [
        (0u16, "N"),
        (45, "NE"),
        (90, "E"),
        (135, "SE"),
        (180, "S"),
        (225, "SW"),
        (270, "W"),
        (315, "NW"),
    ] {
        assert_eq!(compass_point(deg), want, "deg={deg}");
    }
    assert_eq!(expected.len(), 8);
}

#[test]
fn compass_point_sector_edges() {
    assert_eq!(compass_point(11), "N");
    assert_eq!(compass_point(12), "NNE");
    assert_eq!(compass_point(340), "NNW");
    assert_eq!(compass_point(345), "NNW");
    assert_eq!(compass_point(348), "NNW");
    assert_eq!(compass_point(349), "N");
    assert_eq!(compass_point(359), "N");
    assert_eq!(compass_point(405), "NE", "a full turn more is the same direction");
}

#[test]
fn precip_sparkline_uses_8_levels() {
    let s = precip_sparkline(&[0, 12, 25, 37, 50, 62, 75, 87, 100]);
    assert_eq!(s.chars().count(), 9);
    for c in s.chars() {
        assert!("▁▂▃▄▅▆▇█".contains(c), "unexpected sparkline char {c:?}");
    }
}

#[test]
fn precip_sparkline_handles_zero_and_full() {
    assert_eq!(precip_sparkline(&[0]), "▁");
    assert_eq!(precip_sparkline(&[100]), "█");
}

#[test]
fn precip_sparkline_exact_levels() {
    assert_eq!(precip_sparkline(&[12, 13, 50, 87, 88, 255]), "▁▂▅▇██");
    assert_eq!(precip_sparkline(&[]), "");
}

fn current(temp: Option<f32>) -> CurrentBlock {
    CurrentBlock {
        temperature_bits: temp.map(f32::to_bits),
        apparent_temperature_bits: None,
        humidity_pct: Some(40),
        wind_speed_bits: None,
        wind_direction_deg: Some(270),
        weather_code: None,
        is_day: 0,
    }
}

#[test]
fn weather_response_requires_current_and_temperature() {
    match reading_from_response(None, None) {
        Err(WeatherError::BadPayload(m)) => assert_eq!(m, "missing `current` block"),
        _ => panic!("expected BadPayload"),
    }
    match reading_from_response(Some(current(None)), None) {
        Err(WeatherError::BadPayload(m)) => assert_eq!(m, "missing temperature_2m"),
        _ => panic!("expected BadPayload"),
    }
}

#[test]
fn weather_response_fills_the_defaults() {
    let hourly = vec![Some(5), None, Some(60), None, None, None, None, None, None, None, None, Some(7), Some(99)];
    let w = match reading_from_response(Some(current(Some(12.5))), Some(hourly)) {
        Ok(w) => w,
        Err(_) => panic!("expected a reading"),
    };
    assert_eq!(f32::from_bits(w.temp_bits), 12.5);
    assert_eq!(f32::from_bits(w.feels_like_bits), 12.5, "felt temperature falls back to the air");
    assert_eq!(w.humidity_pct, 40);
    assert_eq!(f32::from_bits(w.wind_bits), 0.0);
    assert_eq!(w.wind_dir_deg, Some(270));
    assert_eq!(w.weather_code, 0);
    assert!(!w.is_day);
    assert_eq!(w.next_12h_precip_pct, Some(vec![5, 60, 7]), "first twelve slots, gaps skipped");
    assert_eq!(next_12h_precip(vec![None, None]), None);
    assert_eq!(next_12h_precip(vec![]), None);
}

// ─── Traffic ───────────────────────────────────────────────────────────

#[test]
fn motorway_at_commute_morning_can_reach_gridlock() {
    // Monday 08:00 is the morning commute.
    assert_eq!(period_for(0, 8), Period::CommuteMorning);
    let mut max = TrafficLevel::Fluid;
    for h in 0..64u64 {
        let l = level_for("motorway", Period::CommuteMorning, h);
        if l.severity() > max.severity() {
            max = l;
        }
    }
    assert_eq!(max, TrafficLevel::Gridlock);
}

#[test]
fn footway_never_reaches_gridlock() {
    for hour in 0..24u32 {
        let p = period_for(0, hour);
        for h in 0..16u64 {
            let l = level_for("footway", p, h);
            assert!(l.severity() <= TrafficLevel::Heavy.severity());
            let q = level_for("footway", Period::Quiet, h);
            assert!(q.severity() <= TrafficLevel::Light.severity(), "hour {hour} reached {q:?}");
        }
    }
}

#[test]
fn residential_at_quiet_hour_is_fluid_or_light() {
    assert_eq!(period_for(1, 3), Period::Quiet);
    for h in 0..32u64 {
        let l = level_for("residential", Period::Quiet, h);
        assert!(matches!(l, TrafficLevel::Fluid | TrafficLevel::Light), "got {l:?}");
    }
}

#[test]
fn weekend_leisure_is_distinct_from_commute() {
    // Saturday noon.
    assert_eq!(period_for(5, 12), Period::WeekendLeisure);
    let mut worst = TrafficLevel::Fluid;
    for h in 0..16u64 {
        let l = level_for("motorway", Period::WeekendLeisure, h);
        if l.severity() > worst.severity() {
            worst = l;
        }
    }
    assert_ne!(worst, TrafficLevel::Gridlock);
    assert!(worst.severity() >= TrafficLevel::Heavy.severity());
}

#[test]
fn overlay_segments_match_input_order() {
    let roads = vec![
        ("motorway".to_string(), 3u64),
        ("primary".to_string(), 0u64),
        ("residential".to_string(), 2u64),
    ];
    let overlay = synthetic_overlay(&roads, 0, 8);
    assert_eq!(overlay.segments.len(), 3);
    assert_eq!(overlay.segments[0], (0, TrafficLevel::Gridlock));
    assert_eq!(overlay.segments[1], (1, TrafficLevel::Light));
    assert_eq!(overlay.segments[2], (2, TrafficLevel::Heavy));
    assert_eq!(overlay.source, TrafficSource::Synthetic);
}

#[test]
fn periods_follow_the_clock() {
    assert_eq!(period_for(2, 17), Period::CommuteEvening);
    assert_eq!(period_for(2, 12), Period::Midday);
    assert_eq!(period_for(2, 20), Period::Evening);
    assert_eq!(period_for(2, 23), Period::Quiet);
    assert_eq!(period_for(6, 15), Period::Quiet);
}

#[test]
fn city_keys_map_to_commands() {
    assert_eq!(city_command(Key::Char('h')), Some(CityCommand::PanWest));
    assert_eq!(city_command(Key::Up), Some(CityCommand::PanNorth));
    assert_eq!(city_command(Key::Char('=')), Some(CityCommand::ZoomIn));
    assert_eq!(city_command(Key::Char('_')), Some(CityCommand::ZoomOut));
    assert_eq!(city_command(Key::Char('C')), Some(CityCommand::PickCity));
    assert_eq!(city_command(Key::Char('w')), Some(CityCommand::ToggleWeather));
    assert_eq!(city_command(Key::Enter), None);
}

// ─── Braille grid ──────────────────────────────────────────────────────

fn grid_to_str(g: &BrailleGrid) -> String {
    g.to_rows().join("\n")
}

#[test]
fn empty_grid_is_all_spaces() {
    let g = BrailleGrid::new(3, 2);
    let s = grid_to_str(&g);
    assert_eq!(s.lines().count(), 2);
    for line in s.lines() {
        assert_eq!(line, "   ");
    }
    assert_eq!(g.lit_count(), 0);
}

#[test]
fn single_dot_top_left_lights_only_bit_zero() {
    let mut g = BrailleGrid::new(1, 1);
    g.set_dot(0, 0);
    assert_eq!(grid_to_str(&g), "\u{2801}");
    assert_eq!(g.lit_count(), 1);
}

#[test]
fn dots_pack_into_unicode_braille_correctly() {
    let mut g = BrailleGrid::new(1, 1);
    for dy in 0..4 {
        for dx in 0..2 {
            g.set_dot(dx, dy);
        }
    }
    assert_eq!(grid_to_str(&g), "\u{28FF}");
}

#[test]
fn set_dot_clamps_outside_grid() {
    let mut g = BrailleGrid::new(1, 1);
    g.set_dot(-1, 0);
    g.set_dot(0, -1);
    g.set_dot(2, 0);
    g.set_dot(0, 4);
    g.set_dot(99, 99);
    assert_eq!(grid_to_str(&g), " ");
    assert_eq!(g.lit_count(), 0);
}

#[test]
fn bresenham_horizontal_line_covers_full_row() {
    let mut g = BrailleGrid::new(3, 1);
    braille::line(&mut g, 0, 1, 5, 1);
    assert_eq!(grid_to_str(&g), "\u{280C}\u{280C}\u{280C}");
}

#[test]
fn bresenham_vertical_line_covers_both_columns() {
    let mut g = BrailleGrid::new(1, 2);
    braille::line(&mut g, 1, 0, 1, 7);
    assert_eq!(grid_to_str(&g), "\u{28AA}\n\u{28AA}");
}

#[test]
fn bresenham_diagonal_lights_endpoints() {
    let mut g = BrailleGrid::new(2, 2);
    braille::line(&mut g, 0, 0, 3, 7);
    assert_eq!(g.lit_count(), 8);
}

#[test]
fn golden_horizontal_line_4x2() {
    let mut g = BrailleGrid::new(4, 2);
    braille::line(&mut g, 0, 4, 7, 4);
    assert_eq!(grid_to_str(&g), "    \n\u{2803}\u{2803}\u{2803}\u{2803}");
}

#[test]
fn bresenham_reverse_direction_and_single_point() {
    let mut g = BrailleGrid::new(2, 2);
    braille::line(&mut g, 3, 7, 0, 0);
    assert_eq!(g.lit_count(), 8);
    let mut h = BrailleGrid::new(1, 1);
    braille::line(&mut h, 1, 2, 1, 2);
    assert_eq!(h.lit_count(), 1);
    // A line running off the grid lights only the dots inside.
    let mut k = BrailleGrid::new(1, 1);
    braille::line(&mut k, -3, 0, 5, 0);
    assert_eq!(k.lit_count(), 2);
}

#[test]
fn stroke_weight_thick_lines_produce_more_dots() {
    assert_eq!(stroke_weight("motorway"), 2);
    assert_eq!(stroke_weight("trunk"), 2);
    assert_eq!(stroke_weight("primary"), 2);
    assert_eq!(stroke_weight("secondary"), 2);
    assert_eq!(stroke_weight("residential"), 1);
    assert_eq!(stroke_weight(""), 1);
}

#[test]
fn weather_icon_returns_4_lines() {
    let codes: &[(u8, bool)] = &[
        (0, true),
        (0, false),
        (1, true),
        (2, false),
        (3, true),
        (45, true),
        (48, false),
        (51, true),
        (61, true),
        (80, false),
        (71, true),
        (85, false),
        (95, true),
        (99, false),
        (255, true),
    ];
    for &(code, day) in codes {
        let lines = weather_icon(code, day);
        assert_eq!(lines.len(), 4, "weather_icon({code}, {day}) returned {} lines", lines.len());
    }
}

#[test]
fn weather_icon_picks_art_by_code_and_daylight() {
    assert_eq!(icon_kind(0, true), IconKind::ClearDay);
    assert_eq!(icon_kind(0, false), IconKind::ClearNight);
    assert_eq!(icon_kind(2, false), IconKind::PartlyNight);
    assert_eq!(icon_kind(3, false), IconKind::Overcast);
    assert_eq!(icon_kind(48, true), IconKind::Fog);
    assert_eq!(icon_kind(57, true), IconKind::Drizzle);
    assert_eq!(icon_kind(82, true), IconKind::Rain);
    assert_eq!(icon_kind(86, true), IconKind::Snow);
    assert_eq!(icon_kind(96, true), IconKind::Thunder);
    assert_eq!(icon_kind(4, true), IconKind::Unknown);
    let fog = weather_icon(45, true);
    assert_eq!(fog[3], vec![("   fog    ", Hue::DarkGray)]);
    let partly = weather_icon(1, true);
    assert_eq!(partly[0], vec![(" \\  /", Hue::Yellow), ("     ", Hue::Gray)]);
}

#[test]
fn severity_to_level_maps_back_and_forth() {
    assert_eq!(severity_to_level(0), TrafficLevel::Fluid);
    assert_eq!(severity_to_level(1), TrafficLevel::Light);
    assert_eq!(severity_to_level(2), TrafficLevel::Heavy);
    assert_eq!(severity_to_level(3), TrafficLevel::Gridlock);
    assert_eq!(severity_to_level(9), TrafficLevel::Gridlock);
    for s in 0..4u8 {
        assert_eq!(severity_to_level(s).severity(), s);
    }
}

fn answer(status: &str, city: Option<&str>, lat: bool, lon: bool) -> IpAnswer {
    IpAnswer {
        status: status.into(),
        city: city.map(|c| c.into()),
        country: Some("United States".into()),
        country_code: Some("US".into()),
        region_name: Some("Washington".into()),
        timezone: None,
        has_lat: lat,
        has_lon: lon,
    }
}

#[test]
fn place_of_success_fills_names_and_defaults() {
    let p = place_of(&answer("success", Some("Seattle"), true, true)).expect("located");
    assert_eq!(p.name, "Seattle");
    assert_eq!(p.country_code, "US");
    assert_eq!(p.region, "Washington");
    assert_eq!(p.timezone, "");
    let unknown = place_of(&answer("success", None, true, true)).expect("located");
    assert_eq!(unknown.name, "(unknown)");
}

#[test]
fn place_of_maps_failures() {
    assert!(matches!(place_of(&answer("fail", None, false, false)), Err(GeoError::RateLimited)));
    match place_of(&answer("success", Some("X"), false, true)) {
        Err(GeoError::BadPayload(m)) => assert_eq!(m, "missing lat"),
        _ => panic!("missing latitude must be a bad payload"),
    }
    match place_of(&answer("success", Some("X"), true, false)) {
        Err(GeoError::BadPayload(m)) => assert_eq!(m, "missing lon"),
        _ => panic!("missing longitude must be a bad payload"),
    }
}

fn pane_texts() -> WeatherTexts {
    WeatherTexts {
        label: "Partly cloudy".into(),
        temp: "12.3°C".into(),
        feels: "10.1°C".into(),
        wind: "14 km/h".into(),
        fetched: "09:15:00".into(),
    }
}

#[test]
fn weather_pane_lists_the_reading_and_legend() {
    let r = Reading {
        temp_bits: 12.3f32.to_bits(),
        feels_like_bits: 10.1f32.to_bits(),
        humidity_pct: 71,
        wind_bits: 14.0f32.to_bits(),
        wind_dir_deg: Some(90),
        weather_code: 2,
        next_12h_precip_pct: Some(vec![0, 50, 100]),
        is_day: true,
    };
    let (title, rows) = weather_pane(Some(&r), &pane_texts(), true);
    assert_eq!(title, " Weather ");
    let lines: Vec<String> = rows.iter().map(|r| r.iter().map(|t| t.text.as_str()).collect()).collect();
    assert_eq!(
        lines,
        vec![
            "  conditions  Partly cloudy",
            "  temp        12.3°C",
            "  feels like  10.1°C",
            "  humidity    71%",
            "  wind        90 E @ 14 km/h",
            "  next 12h    ",
            "    ▁▅█",
            "  fetched 09:15:00",
            "",
            "  traffic · synthetic",
            "    fluid     ·",
            "    light     +",
            "    heavy     #",
            "    gridlock  @",
            "",
            "  h/j/k/l pan  +/- zoom  c city  t traffic  r refresh",
        ]
    );
}

#[test]
fn weather_pane_waits_for_a_reading() {
    let (title, rows) = weather_pane(None, &pane_texts(), false);
    assert_eq!(title, " Weather · waiting ");
    let first: String = rows[0].iter().map(|t| t.text.as_str()).collect();
    assert_eq!(first, "  (no data yet — press r to refresh)");
    let traffic: String = rows[2].iter().map(|t| t.text.as_str()).collect();
    assert_eq!(traffic, "  traffic · off");
    assert_eq!(rows.len(), 9);
}

#[test]
fn draw_polyline_thickens_major_roads() {
    let mut thin = BrailleGrid::new(4, 4);
    draw_polyline(&mut thin, &vec![(0, 0), (3, 0)], "residential");
    assert_eq!(thin.lit_count(), 4);
    let mut thick = BrailleGrid::new(4, 4);
    draw_polyline(&mut thick, &vec![(0, 0), (3, 0)], "motorway");
    assert_eq!(thick.lit_count(), 8, "a second pass one dot down");
    let mut lone = BrailleGrid::new(4, 4);
    draw_polyline(&mut lone, &vec![(1, 1)], "motorway");
    assert_eq!(lone.lit_count(), 0, "a single point is no road");
    let mut bent = BrailleGrid::new(4, 4);
    draw_polyline(&mut bent, &vec![(0, 0), (3, 0), (3, 3)], "footway");
    assert_eq!(bent.lit_count(), 7);
}

#[test]
fn paint_level_offsets_by_traffic() {
    let road = vec![(0, 0), (3, 0)];
    let mut g = BrailleGrid::new(4, 4);
    paint_level(&mut g, &road, TrafficLevel::Fluid);
    assert_eq!(g.lit_count(), 0);
    paint_level(&mut g, &road, TrafficLevel::Light);
    assert_eq!(g.lit_count(), 4);
    let mut jam = BrailleGrid::new(4, 4);
    paint_level(&mut jam, &road, TrafficLevel::Gridlock);
    assert_eq!(jam.lit_count(), 12, "rows 0 and 2, and row 1 moved right");

    let roads = vec![road.clone(), vec![(0, 8), (7, 8)]];
    let overlay = TrafficOverlay {
        source: TrafficSource::Synthetic,
        segments: vec![(0, TrafficLevel::Heavy), (1, TrafficLevel::Fluid)],
    };
    let mut both = BrailleGrid::new(4, 4);
    paint_traffic(&mut both, &roads, &overlay);
    assert_eq!(both.lit_count(), 4, "only the heavy road is painted, two dots down");
}

#[test]
fn ways_become_roads_with_a_class_and_two_points() {
    assert_eq!(road_class_of(Some("primary".into()), 2), Some("primary".to_string()));
    assert_eq!(road_class_of(Some("primary".into()), 1), None);
    assert_eq!(road_class_of(None, 5), None);
}

#[test]
fn bresenham_shallow_line_takes_the_classic_dots() {
    // (0,0) (1,0) (2,1) (3,1) (4,2) (5,2): two dots per cell.
    let mut g = BrailleGrid::new(3, 1);
    braille::line(&mut g, 0, 0, 5, 2);
    assert_eq!(grid_to_str(&g), "\u{2803}\u{280C}\u{2830}");
    assert_eq!(g.lit_count(), 6);
}

#[test]
fn set_dot_twice_or_in_either_order_gives_the_same_grid() {
    let mut a = BrailleGrid::new(2, 1);
    a.set_dot(1, 2);
    a.set_dot(3, 0);
    a.set_dot(1, 2);
    let mut b = BrailleGrid::new(2, 1);
    b.set_dot(3, 0);
    b.set_dot(1, 2);
    assert_eq!(grid_to_str(&a), grid_to_str(&b));
    assert_eq!(a.lit_count(), 2);
}

#[test]
fn line_on_a_blank_grid_lights_one_dot_per_step_and_both_ends() {
    let mut g = BrailleGrid::new(4, 2);
    assert_eq!(g.lit_count(), 0);
    braille::line(&mut g, 7, 1, 0, 6);
    assert_eq!(g.lit_count(), 8);
    g.set_dot(7, 1);
    g.set_dot(0, 6);
    assert_eq!(g.lit_count(), 8, "both ends were already lit");
    g.set_dot(-1, 3);
    assert_eq!(g.lit_count(), 8, "a dot outside the grid changes nothing");
    assert_eq!((g.w_chars, g.h_chars), (4, 2));
}

#[test]
fn long_line_far_outside_the_grid_only_lights_what_it_crosses() {
    let mut g = BrailleGrid::new(1, 1);
    braille::line(&mut g, 0, 1, 1, 1);
    let mut h = BrailleGrid::new(1, 1);
    braille::line(&mut h, -1_000_000, 1, 1_000_000, 1);
    assert_eq!(grid_to_str(&g), grid_to_str(&h));
}
