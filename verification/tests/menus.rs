use cyberdeck_tui::main_menu::{cols_for_width, MainMenuScreen, MENU_LEN};
use cyberdeck_tui::overworld::{
    all_screen_ids, grid_cols_for, scan_on_open, visible_screens, OpenScan, OverworldAction,
    OverworldScreen,
};
use cyberdeck_tui::ui::{Consumed, Key, NavEvent, ScreenId, ToastKind};

// ─── Main menu ─────────────────────────────────────────────────────────

#[test]
fn right_wraps_to_start() {
    let mut m = MainMenuScreen { cursor: MENU_LEN - 1, ..MainMenuScreen::new() };
    m.on_nav(NavEvent::Right);
    assert_eq!(m.cursor, 0);
}

#[test]
fn left_wraps_to_end() {
    let mut m = MainMenuScreen::new();
    m.on_nav(NavEvent::Left);
    assert_eq!(m.cursor, MENU_LEN - 1);
}

#[test]
fn down_moves_to_next_row() {
    let mut m = MainMenuScreen::new();
    m.on_nav(NavEvent::Down);
    assert_eq!(m.cursor, 5);
}

#[test]
fn up_from_row0_wraps_to_last_row() {
    let mut m = MainMenuScreen::new();
    m.on_nav(NavEvent::Up);
    let cols = m.cols;
    let total = MENU_LEN;
    let rows = (total + cols - 1) / cols;
    assert_eq!(m.cursor, (rows - 1) * cols);
}

#[test]
fn cols_for_width_bounds() {
    assert_eq!(cols_for_width(80), 5);
    assert_eq!(cols_for_width(40), 2);
    assert_eq!(cols_for_width(120), 6);
    assert_eq!(cols_for_width(10), 2);
}

#[test]
fn scroll_clamps_down_on_cursor_advance() {
    let mut m = MainMenuScreen { visible_rows: 1, ..MainMenuScreen::new() };
    m.on_nav(NavEvent::Down);
    assert_eq!(m.scroll_offset, 1);
}

#[test]
fn scroll_clamps_up_on_cursor_retreat() {
    let mut m = MainMenuScreen { cursor: 5, scroll_offset: 1, visible_rows: 1, ..MainMenuScreen::new() };
    m.on_nav(NavEvent::Up);
    assert_eq!(m.scroll_offset, 0);
}

#[test]
fn down_past_short_last_row_goes_to_the_column_top() {
    // 17 tiles in 5 columns: the last row holds tiles 15 and 16 only.
    let mut m = MainMenuScreen { cursor: 13, ..MainMenuScreen::new() };
    m.on_nav(NavEvent::Down);
    assert_eq!(m.cursor, 3);
    let mut m = MainMenuScreen { cursor: 3, ..MainMenuScreen::new() };
    m.on_nav(NavEvent::Up);
    assert_eq!(m.cursor, 16, "Up onto a missing tile lands on the last tile");
}

#[test]
fn right_then_left_returns_to_the_same_tile() {
    for start in 0..MENU_LEN {
        let mut m = MainMenuScreen { cursor: start, ..MainMenuScreen::new() };
        m.on_nav(NavEvent::Right);
        m.on_nav(NavEvent::Left);
        assert_eq!(m.cursor, start);
    }
}

#[test]
fn confirm_and_back_navigate() {
    let mut m = MainMenuScreen { cursor: 7, ..MainMenuScreen::new() };
    assert_eq!(m.on_nav(NavEvent::Confirm), (Consumed::Yes, Some(ScreenId::LoRa)));
    assert_eq!(m.on_nav(NavEvent::Back), (Consumed::Yes, Some(ScreenId::Screensaver)));
    assert_eq!(m.on_nav(NavEvent::Tab), (Consumed::No, None));
}

#[test]
fn set_layout_records_the_grid() {
    let mut m = MainMenuScreen::new();
    m.set_layout(100, 13);
    assert_eq!(m.cols, 6);
    assert_eq!(m.visible_rows, 3);
}

// ─── Overworld ─────────────────────────────────────────────────────────

#[test]
fn grid_cols_for_widths() {
    assert_eq!(grid_cols_for(0), 2);
    assert_eq!(grid_cols_for(60), 2);
    assert_eq!(grid_cols_for(80), 2);
    assert_eq!(grid_cols_for(120), 3);
    assert_eq!(grid_cols_for(160), 4);
    assert_eq!(grid_cols_for(200), 5);
    assert_eq!(grid_cols_for(500), 5);
}

#[test]
fn visible_screens_excludes_editor() {
    let v = visible_screens();
    assert!(v.contains(&ScreenId::Overworld));
    assert!(v.contains(&ScreenId::System));
    assert!(v.contains(&ScreenId::City));
    assert!(!v.contains(&ScreenId::Editor));
    assert_eq!(v.len(), all_screen_ids().len() - 1);
}

#[test]
fn cursor_round_trip() {
    let mut s = OverworldScreen::new();
    let cols = 3;
    s.cursor = 5;
    let (r, c) = s.cursor_rc(cols);
    assert_eq!(r * cols + c, s.cursor);
    s.cursor = s.rc_cursor(2, 1, cols);
    assert_eq!(s.cursor_rc(cols), (2, 1));
}

#[test]
fn cursor_wraps_left_up() {
    let mut s = OverworldScreen::new();
    s.cols_at_render = 3;
    s.cursor = 0;
    let (r, c) = s.cursor_rc(3);
    let new = s.rc_cursor(r, c.saturating_sub(1).max(3 - 1), 3);
    s.cursor = new;
    assert_eq!(s.cursor, 2);
    s.cursor = 0;
    let rows = visible_screens().len().div_ceil(3);
    s.cursor = s.rc_cursor(rows - 1, 0, 3);
    assert_eq!(s.cursor, (rows - 1) * 3);
}

#[test]
fn esc_emits_quit_hint_toast() {
    let mut s = OverworldScreen::new();
    let (consumed, action) = s.on_key(Key::Esc);
    assert!(consumed, "Overworld must consume Esc");
    match action {
        OverworldAction::Notify(t) => {
            assert_eq!(t.kind, ToastKind::Info);
            assert!(t.text.contains("q to quit"));
        }
        _ => panic!("expected a toast"),
    }
}

#[test]
fn enter_moves_current_and_pane_kind() {
    let mut s = OverworldScreen::new();
    s.cols_at_render = 3;
    s.cursor = 1;
    match s.on_key(Key::Enter) {
        (true, OverworldAction::Open(id)) => assert_eq!(id, ScreenId::System),
        _ => panic!("expected Open(System)"),
    }
}

#[test]
fn enter_on_network_queues_wifi_scan() {
    let mut s = OverworldScreen::new();
    s.cols_at_render = 3;
    s.cursor = 2;
    match s.on_key(Key::Enter) {
        (true, OverworldAction::Open(id)) => {
            assert_eq!(id, ScreenId::Network);
            assert!(matches!(scan_on_open(id, true), Some(OpenScan::Wifi)));
            assert!(scan_on_open(id, false).is_none());
        }
        _ => panic!("expected Open(Network)"),
    }
    assert!(matches!(scan_on_open(ScreenId::Bluetooth, false), Some(OpenScan::Bluetooth)));
}

#[test]
fn enter_on_overworld_tile_is_noop() {
    let mut s = OverworldScreen::new();
    s.cursor = 0;
    assert!(matches!(s.on_key(Key::Enter), (true, OverworldAction::Stay)));
}

#[test]
fn tab_falls_through() {
    let mut s = OverworldScreen::new();
    let (consumed, _) = s.on_key(Key::Tab);
    assert!(!consumed, "Overworld must NOT consume Tab; the main loop owns cycling");
}

#[test]
fn arrows_and_digits_move_the_cursor() {
    let mut s = OverworldScreen::new();
    s.cols_at_render = 3;
    s.cursor = 0;
    s.on_key(Key::Left);
    assert_eq!(s.cursor, 2, "Left wraps within the row");
    s.on_key(Key::Right);
    assert_eq!(s.cursor, 0, "Right wraps within the row");
    s.on_key(Key::Up);
    assert_eq!(s.cursor, 15, "Up from the top row wraps to the last row");
    s.on_key(Key::Up);
    assert_eq!(s.cursor, 12);
    s.cursor = 0;
    s.cursor = 16;
    s.on_key(Key::Down);
    assert_eq!(s.cursor, 1, "Down from the last row goes to the top");
    s.on_key(Key::Char('7'));
    assert_eq!(s.cursor, 6);
    s.on_key(Key::Char('0'));
    assert_eq!(s.cursor, 9);
    assert!(!s.on_key(Key::Char('x')).0);
}

#[test]
fn layout_places_visible_rows_of_tiles() {
    let m = MainMenuScreen::new();
    let l = m.layout(75, 8);
    assert_eq!(l.cells.len(), 10, "two rows of five tiles fit");
    for (k, c) in l.cells.iter().enumerate() {
        assert_eq!(c.item, k);
        assert_eq!(c.x as usize, (k % 5) * 15);
        assert_eq!(c.y as usize, (k / 5) * 4);
        assert_eq!(c.focused, k == 0);
    }
    assert!(!l.more_above);
    assert!(l.more_below);
}

#[test]
fn layout_scrolled_to_the_last_rows() {
    let m = MainMenuScreen { cursor: 12, scroll_offset: 2, ..MainMenuScreen::new() };
    let l = m.layout(75, 8);
    let items: Vec<usize> = l.cells.iter().map(|c| c.item).collect();
    assert_eq!(items, (10..MENU_LEN).collect::<Vec<usize>>());
    assert_eq!((l.cells[0].x, l.cells[0].y), (0, 0));
    assert_eq!((l.cells[6].x, l.cells[6].y), (15, 4));
    assert!(l.cells[2].focused);
    assert!(l.more_above);
    assert!(!l.more_below);

    let flat = MainMenuScreen::new().layout(75, 0);
    assert!(flat.cells.is_empty());
    assert!(!flat.more_above && !flat.more_below);
}
