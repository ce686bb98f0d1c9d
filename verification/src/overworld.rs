//! The Overworld: the carousel front door, a grid of every screen but the
//! editor. Arrow keys move within the grid, digits jump to a tile, Enter
//! opens the focused screen.
use vstd::prelude::*;
use crate::ui::{Key, ScreenId, Toast, ToastKind};

verus! {

/// Every screen of the tab cycle, in order: the Overworld first, the City
/// last.
pub open spec fn all_screens() -> Seq<ScreenId> {
    seq![
        ScreenId::Overworld,
        ScreenId::System,
        ScreenId::Network,
        ScreenId::Bluetooth,
        ScreenId::Power,
        ScreenId::Display,
        ScreenId::Audio,
        ScreenId::Storage,
        ScreenId::LoRa,
        ScreenId::Intel,
        ScreenId::Recon,
        ScreenId::Files,
        ScreenId::Processes,
        ScreenId::Services,
        ScreenId::Packages,
        ScreenId::Logs,
        ScreenId::Settings,
        ScreenId::Editor,
        ScreenId::City,
    ]
}

/// Every screen of the tab cycle, in order.
pub fn all_screen_ids() -> (r: Vec<ScreenId>)
    ensures
        r@ == all_screens(),
{
    let r = vec![
        ScreenId::Overworld,
        ScreenId::System,
        ScreenId::Network,
        ScreenId::Bluetooth,
        ScreenId::Power,
        ScreenId::Display,
        ScreenId::Audio,
        ScreenId::Storage,
        ScreenId::LoRa,
        ScreenId::Intel,
        ScreenId::Recon,
        ScreenId::Files,
        ScreenId::Processes,
        ScreenId::Services,
        ScreenId::Packages,
        ScreenId::Logs,
        ScreenId::Settings,
        ScreenId::Editor,
        ScreenId::City,
    ];
    assert(r@ =~= all_screens());
    r
}

/// The tiles of the carousel: every screen but the editor, in tab order.
pub open spec fn carousel() -> Seq<ScreenId> {
    all_screens().filter(|id: ScreenId| id != ScreenId::Editor)
}

/// Number of carousel tiles.
pub const CAROUSEL_LEN: usize = 18;

proof fn lemma_carousel()
    ensures
        carousel() == seq![
            ScreenId::Overworld,
            ScreenId::System,
            ScreenId::Network,
            ScreenId::Bluetooth,
            ScreenId::Power,
            ScreenId::Display,
            ScreenId::Audio,
            ScreenId::Storage,
            ScreenId::LoRa,
            ScreenId::Intel,
            ScreenId::Recon,
            ScreenId::Files,
            ScreenId::Processes,
            ScreenId::Services,
            ScreenId::Packages,
            ScreenId::Logs,
            ScreenId::Settings,
            ScreenId::City,
        ],
        carousel().len() == CAROUSEL_LEN,
{
    reveal_with_fuel(Seq::filter, 20);
    assert(carousel() =~= seq![
        ScreenId::Overworld,
        ScreenId::System,
        ScreenId::Network,
        ScreenId::Bluetooth,
        ScreenId::Power,
        ScreenId::Display,
        ScreenId::Audio,
        ScreenId::Storage,
        ScreenId::LoRa,
        ScreenId::Intel,
        ScreenId::Recon,
        ScreenId::Files,
        ScreenId::Processes,
        ScreenId::Services,
        ScreenId::Packages,
        ScreenId::Logs,
        ScreenId::Settings,
        ScreenId::City,
    ]);
}

/// The carousel's tiles: every screen but the editor.
pub fn visible_screens() -> (r: Vec<ScreenId>)
    ensures
        r@ == carousel(),
        r@.len() == CAROUSEL_LEN,
{
    let all = all_screen_ids();
    let mut r: Vec<ScreenId> = Vec::new();
    for i in 0..all.len()
        invariant
            all@ == all_screens(),
            r@ == all_screens().take(i as int).filter(|id: ScreenId| id != ScreenId::Editor),
    {
        let id = all[i];
        proof {
            let f = |id: ScreenId| id != ScreenId::Editor;
            assert(all_screens().take(i + 1).drop_last() =~= all_screens().take(i as int));
            assert(all_screens().take(i + 1).filter(f) == if f(id) {
                all_screens().take(i as int).filter(f).push(id)
            } else {
                all_screens().take(i as int).filter(f)
            }) by {
                reveal(Seq::filter);
            }
        }
        if id != ScreenId::Editor {
            r.push(id);
        }
    }
    assert(all_screens().take(all_screens().len() as int) =~= all_screens());
    proof {
        lemma_carousel();
    }
    r
}

/// Grid columns for a terminal width: 2 up to 80 cells, 3 up to 120, 4 up
/// to 160, then 5.
pub open spec fn spec_grid_cols(width: u16) -> int {
    if width <= 80 {
        2
    } else if width <= 120 {
        3
    } else if width <= 160 {
        4
    } else {
        5
    }
}

/// Grid columns for a terminal width.
pub fn grid_cols_for(width: u16) -> (r: usize)
    ensures
        r == spec_grid_cols(width),
{
    if width <= 80 {
        2
    } else if width <= 120 {
        3
    } else if width <= 160 {
        4
    } else {
        5
    }
}

/// The carousel's state: the focused tile and the column count of the
/// last render.
pub struct OverworldScreen {
    pub cursor: usize,
    pub cols_at_render: usize,
}

/// `a / b` rounded up, for positive `b`.
pub open spec fn ceil_div(a: int, b: int) -> int {
    (a + b - 1) / b
}

/// The tile at (`row`, `col`) of a grid of `cols` columns (at least one)
/// holding the carousel, with row and column first clamped into the grid
/// and the index then clamped to the last tile.
pub open spec fn rc_index(row: int, col: int, cols: int) -> int {
    let c0 = if cols < 1 {
        1
    } else {
        cols
    };
    let total = CAROUSEL_LEN as int;
    let rows = ceil_div(total, c0);
    let r = if row < rows - 1 {
        row
    } else {
        rows - 1
    };
    let c = if col < c0 - 1 {
        col
    } else {
        c0 - 1
    };
    let idx = r * c0 + c;
    if idx < total - 1 {
        idx
    } else {
        total - 1
    }
}

/// What a key asks the app to do.
pub enum OverworldAction {
    /// Nothing beyond the cursor move.
    Stay,
    /// Open this screen in the focused pane.
    Open(ScreenId),
    /// Show this toast.
    Notify(Toast),
}

fn ceil_div_exec(a: usize, b: usize) -> (r: usize)
    requires
        b >= 1,
        a <= CAROUSEL_LEN,
    ensures
        r == ceil_div(a as int, b as int),
{
    let q = a / b;
    let r = if a % b == 0 {
        q
    } else {
        q + 1
    };
    assert(r == (a + b - 1) / (b as int)) by (nonlinear_arith)
        requires
            b >= 1,
            q == a / b,
            r == if a % b == 0 {
                q as int
            } else {
                q + 1
            },
    ;
    r
}

impl OverworldScreen {
    /// The carousel of a fresh start: the cursor on System, two columns
    /// until the first render.
    pub fn new() -> (s: OverworldScreen)
        ensures
            s.cursor == 1,
            s.cols_at_render == 2,
    {
        OverworldScreen { cursor: 1, cols_at_render: 2 }
    }

    /// The cursor.
    pub fn cursor_for_test(&self) -> (r: usize)
        ensures
            r == self.cursor,
    {
        self.cursor
    }

    /// The column count of the last render.
    pub fn cols_for_test(&self) -> (r: usize)
        ensures
            r == self.cols_at_render,
    {
        self.cols_at_render
    }

    /// Record the column count render picked for a terminal width.
    pub fn set_render_width(&mut self, width: u16)
        ensures
            final(self).cols_at_render == spec_grid_cols(width),
            final(self).cursor == old(self).cursor,
    {
        self.cols_at_render = grid_cols_for(width);
    }

    /// The cursor's (row, column) in a grid of `cols` columns (at least
    /// one).
    pub fn cursor_rc(&self, cols: usize) -> (r: (usize, usize))
        ensures
            ({
                let c0 = if cols < 1 {
                    1
                } else {
                    cols as int
                };
                r == ((self.cursor as int / c0) as usize, (self.cursor as int % c0) as usize)
            }),
    {
        let c = if cols < 1 {
            1
        } else {
            cols
        };
        (self.cursor / c, self.cursor % c)
    }

    /// The tile at (`row`, `col`) of a grid of `cols` columns (see
    /// `rc_index`).
    pub fn rc_cursor(&self, row: usize, col: usize, cols: usize) -> (r: usize)
        ensures
            r == rc_index(row as int, col as int, cols as int),
            r < CAROUSEL_LEN,
    {
        let c0 = if cols < 1 {
            1
        } else {
            cols
        };
        let total = CAROUSEL_LEN;
        let rows = ceil_div_exec(total, c0);
        assert(rows >= 1 && (rows - 1) * c0 < total) by (nonlinear_arith)
            requires
                c0 >= 1,
                rows == (total + c0 - 1) / (c0 as int),
                total == 18,
        ;
        let r = if row < rows - 1 {
            row
        } else {
            rows - 1
        };
        let c = if col < c0 - 1 {
            col
        } else {
            c0 - 1
        };
        assert(r * c0 <= (rows - 1) * c0 && (r >= 1 ==> c0 < 18) && r * c0 + c < usize::MAX)
            by (nonlinear_arith)
            requires
                r <= rows - 1,
                c0 >= 1,
                (rows - 1) * c0 < 18,
                c <= c0 - 1,
                c0 <= usize::MAX,
        ;
        let idx = r * c0 + c;
        if idx < total - 1 {
            idx
        } else {
            total - 1
        }
    }
}

/// Index of a digit key's tile: `1`–`9` are tiles 0–8 and `0` is tile 9.
pub open spec fn digit_tile(d: char) -> int {
    if d == '0' {
        9
    } else {
        d as int - '1' as int
    }
}

/// The key handling of the carousel, as far as the cursor goes: `h`/Left
/// and `l`/Right move along the row with wrap-around, `k`/Up a row up
/// with wrap-around from the top row to the last, `j`/Down a row down with
/// wrap-around to the top; a digit jumps to its tile when there is one.
pub open spec fn overworld_cursor(cursor: int, cols_at_render: int, key: Key) -> int {
    let cols = if cols_at_render < 2 {
        2
    } else if cols_at_render > 5 {
        5
    } else {
        cols_at_render
    };
    let r = cursor / cols;
    let c = cursor % cols;
    let total = CAROUSEL_LEN as int;
    if key == Key::Left || key == Key::Char('h') {
        rc_index(
            r,
            if c == 0 {
                cols - 1
            } else {
                c - 1
            },
            cols,
        )
    } else if key == Key::Right || key == Key::Char('l') {
        rc_index(
            r,
            if c + 1 >= cols {
                0
            } else {
                c + 1
            },
            cols,
        )
    } else if key == Key::Up || key == Key::Char('k') {
        rc_index(
            if r < 1 {
                ceil_div(total, cols) - 1
            } else {
                r - 1
            },
            c,
            cols,
        )
    } else if key == Key::Down || key == Key::Char('j') {
        rc_index(
            if r + 1 >= ceil_div(total, cols) {
                0
            } else {
                r + 1
            },
            c,
            cols,
        )
    } else {
        match key {
            Key::Char(d) => if ('1' <= d <= '9' || d == '0') && digit_tile(d) < total {
                digit_tile(d)
            } else {
                cursor
            },
            _ => cursor,
        }
    }
}

/// The keys the carousel uses: arrows and `hjkl`, Enter, Esc and digits.
pub open spec fn overworld_key(key: Key) -> bool {
    ||| key == Key::Left || key == Key::Right || key == Key::Up || key == Key::Down
    ||| key == Key::Enter || key == Key::Esc
    ||| key matches Key::Char(d) && (d == 'h' || d == 'j' || d == 'k' || d == 'l' || ('0' <= d
        <= '9'))
}

impl OverworldScreen {
    /// Handle a key: moves the cursor as `overworld_cursor` says; Enter
    /// opens the focused screen (nothing for the Overworld's own tile);
    /// Esc never quits but reminds of the quit key. Other keys, Tab among
    /// them, are left to the app.
    pub fn on_key(&mut self, key: Key) -> (r: (bool, OverworldAction))
        ensures
            r.0 == overworld_key(key),
            final(self).cols_at_render == old(self).cols_at_render,
            key != Key::Enter && key != Key::Esc ==> {
                &&& r.1 is Stay
                &&& final(self).cursor == overworld_cursor(
                    old(self).cursor as int,
                    old(self).cols_at_render as int,
                    key,
                )
            },
            key == Key::Enter ==> {
                &&& final(self).cursor == old(self).cursor
                &&& if old(self).cursor < CAROUSEL_LEN && carousel()[old(self).cursor as int]
                    != ScreenId::Overworld {
                    r.1 matches OverworldAction::Open(t) && t == carousel()[old(self).cursor as int]
                } else {
                    r.1 is Stay
                }
            },
            key == Key::Esc ==> {
                &&& final(self).cursor == old(self).cursor
                &&& r.1 matches OverworldAction::Notify(t) && t.kind == ToastKind::Info && t.text@
                    == "Press q to quit · ? for help"@
            },
    {
        let cols: usize = if self.cols_at_render < 2 {
            2
        } else if self.cols_at_render > 5 {
            5
        } else {
            self.cols_at_render
        };
        let visible = visible_screens();
        let total = visible.len();
        let (r, c) = self.cursor_rc(cols);
        assert(r < usize::MAX) by (nonlinear_arith)
            requires
                r == self.cursor as int / cols as int,
                cols >= 2,
                self.cursor <= usize::MAX,
        ;
        if key == Key::Left || key == Key::Char('h') {
            let new_c = if c == 0 {
                cols - 1
            } else {
                c - 1
            };
            self.cursor = self.rc_cursor(r, new_c, cols);
            (true, OverworldAction::Stay)
        } else if key == Key::Right || key == Key::Char('l') {
            let new_c = if c + 1 >= cols {
                0
            } else {
                c + 1
            };
            self.cursor = self.rc_cursor(r, new_c, cols);
            (true, OverworldAction::Stay)
        } else if key == Key::Up || key == Key::Char('k') {
            let total_rows = ceil_div_exec(total, cols);
            assert(total_rows >= 1) by (nonlinear_arith)
                requires
                    total_rows == (total + cols - 1) / (cols as int),
                    2 <= cols <= 5,
                    total == 18,
            ;
            let new_r = if r < 1 {
                total_rows - 1
            } else {
                r - 1
            };
            self.cursor = self.rc_cursor(new_r, c, cols);
            (true, OverworldAction::Stay)
        } else if key == Key::Down || key == Key::Char('j') {
            let total_rows = ceil_div_exec(total, cols);
            let new_r = if r + 1 >= total_rows {
                0
            } else {
                r + 1
            };
            self.cursor = self.rc_cursor(new_r, c, cols);
            (true, OverworldAction::Stay)
        } else if key == Key::Enter {
            if self.cursor < total && visible[self.cursor] != ScreenId::Overworld {
                (true, OverworldAction::Open(visible[self.cursor]))
            } else {
                (true, OverworldAction::Stay)
            }
        } else if key == Key::Esc {
            (
                true,
                OverworldAction::Notify(
                    Toast { kind: ToastKind::Info, text: "Press q to quit · ? for help".to_owned() },
                ),
            )
        } else {
            match key {
                Key::Char(d) => {
                    if '1' <= d && d <= '9' {
                        let idx = (d as u32 - '1' as u32) as usize;
                        if idx < total {
                            self.cursor = idx;
                        }
                        (true, OverworldAction::Stay)
                    } else if d == '0' {
                        if total >= 10 {
                            self.cursor = 9;
                        }
                        (true, OverworldAction::Stay)
                    } else {
                        (false, OverworldAction::Stay)
                    }
                },
                _ => (false, OverworldAction::Stay),
            }
        }
    }
}

/// What the app scans for when a screen opens from the carousel: a Wi-Fi
/// scan for the network screen when no results are in yet, a Bluetooth
/// scan for the Bluetooth screen.
pub enum OpenScan {
    Wifi,
    Bluetooth,
}

/// The scan to start when `target` opens.
pub fn scan_on_open(target: ScreenId, wifi_results_empty: bool) -> (r: Option<OpenScan>)
    ensures
        target == ScreenId::Network && wifi_results_empty ==> r matches Some(OpenScan::Wifi),
        target == ScreenId::Bluetooth ==> r matches Some(OpenScan::Bluetooth),
        !(target == ScreenId::Network && wifi_results_empty) && target != ScreenId::Bluetooth
            ==> r is None,
{
    if target == ScreenId::Network && wifi_results_empty {
        Some(OpenScan::Wifi)
    } else if target == ScreenId::Bluetooth {
        Some(OpenScan::Bluetooth)
    } else {
        None
    }
}

/// Splitting a tile index into (row, column) and joining them back gives
/// the tile again, for every column count.
pub proof fn lemma_cursor_round_trip(cursor: usize, cols: usize)
    requires
        cursor < CAROUSEL_LEN,
        cols >= 1,
    ensures
        rc_index(cursor as int / cols as int, cursor as int % cols as int, cols as int) == cursor,
{
    let c = cols as int;
    let q = cursor as int / c;
    let m = cursor as int % c;
    let rows = ceil_div(18, c);
    assert(q * c + m == cursor && 0 <= m < c && q >= 0) by (nonlinear_arith)
        requires
            c >= 1,
            q == cursor as int / c,
            m == cursor as int % c,
    ;
    assert(q <= rows - 1) by (nonlinear_arith)
        requires
            c >= 1,
            q == cursor as int / c,
            rows == (18 + c - 1) / c,
            cursor < 18,
    ;
}

} // verus!
