//! The main menu: a grid of screen tiles, navigated with wrap-around in
//! both directions and scrolled so the focused tile's row stays visible.
use vstd::prelude::*;
use crate::ui::{Consumed, NavEvent, ScreenId};

verus! {

/// Number of tiles on the menu.
pub const MENU_LEN: usize = 17;

/// Height of a tile, in rows.
pub const CELL_H: u16 = 4;

/// The tiles, in order.
pub open spec fn menu_items() -> Seq<ScreenId> {
    seq![
        ScreenId::System,
        ScreenId::Network,
        ScreenId::Bluetooth,
        ScreenId::Power,
        ScreenId::Display,
        ScreenId::Audio,
        ScreenId::Storage,
        ScreenId::LoRa,
        ScreenId::City,
        ScreenId::Intel,
        ScreenId::Recon,
        ScreenId::Files,
        ScreenId::Processes,
        ScreenId::Services,
        ScreenId::Packages,
        ScreenId::Logs,
        ScreenId::Settings,
    ]
}

/// The tile at index `i`.
pub fn menu_item(i: usize) -> (r: ScreenId)
    requires
        i < MENU_LEN,
    ensures
        r == menu_items()[i as int],
{
    match i {
        0 => ScreenId::System,
        1 => ScreenId::Network,
        2 => ScreenId::Bluetooth,
        3 => ScreenId::Power,
        4 => ScreenId::Display,
        5 => ScreenId::Audio,
        6 => ScreenId::Storage,
        7 => ScreenId::LoRa,
        8 => ScreenId::City,
        9 => ScreenId::Intel,
        10 => ScreenId::Recon,
        11 => ScreenId::Files,
        12 => ScreenId::Processes,
        13 => ScreenId::Services,
        14 => ScreenId::Packages,
        15 => ScreenId::Logs,
        _ => ScreenId::Settings,
    }
}

/// Columns of the grid for an inner width: one per 15 cells, between 2
/// and 6.
pub open spec fn menu_cols(inner_width: u16) -> int {
    let c = inner_width as int / 15;
    if c < 2 {
        2
    } else if c > 6 {
        6
    } else {
        c
    }
}

/// Columns of the grid for an inner width.
pub fn cols_for_width(inner_width: u16) -> (r: usize)
    ensures
        r == menu_cols(inner_width),
{
    let c = (inner_width as usize) / 15;
    if c < 2 {
        2
    } else if c > 6 {
        6
    } else {
        c
    }
}

/// The main menu's state: the focused tile, the first visible row, and
/// the grid shape of the last render.
pub struct MainMenuScreen {
    pub cursor: usize,
    pub scroll_offset: usize,
    pub cols: usize,
    pub visible_rows: usize,
}

/// Where the cursor goes on a move: Right and Left step through the tiles
/// with wrap-around; Down and Up change row with wrap-around, keeping the
/// column; Down onto a missing tile of the short last row goes to the
/// column's top tile, Up onto one goes to the last tile.
pub open spec fn menu_step(cursor: int, cols: int, ev: NavEvent) -> int {
    let total = MENU_LEN as int;
    let rows = (total + cols - 1) / cols;
    let col = cursor % cols;
    let row = cursor / cols;
    match ev {
        NavEvent::Right => (cursor + 1) % total,
        NavEvent::Left => (cursor + total - 1) % total,
        NavEvent::Down => {
            let cand = ((row + 1) % rows) * cols + col;
            if cand < total {
                cand
            } else if col < total - 1 {
                col
            } else {
                total - 1
            }
        },
        NavEvent::Up => {
            let cand = ((row + rows - 1) % rows) * cols + col;
            if cand < total {
                cand
            } else {
                total - 1
            }
        },
        _ => cursor,
    }
}

/// The first visible row after the cursor moved: unchanged while the
/// cursor's row is in view, else just enough to bring it into view.
pub open spec fn scroll_for(cursor: int, cols: int, scroll: int, visible_rows: int) -> int {
    let r = cursor / cols;
    let v = if visible_rows < 1 {
        1
    } else {
        visible_rows
    };
    if r < scroll {
        r
    } else if r >= scroll + v {
        r + 1 - v
    } else {
        scroll
    }
}

/// Is `ev` a cursor move?
pub open spec fn is_move(ev: NavEvent) -> bool {
    ev == NavEvent::Up || ev == NavEvent::Down || ev == NavEvent::Left || ev == NavEvent::Right
}

impl MainMenuScreen {
    /// The shape render keeps: 2 to 6 columns, a cursor on a tile, a
    /// scroll offset within the rows and a visible-row count from a
    /// terminal height.
    pub open spec fn wf(&self) -> bool {
        &&& 2 <= self.cols <= 6
        &&& self.cursor < MENU_LEN
        &&& self.scroll_offset <= MENU_LEN
        &&& self.visible_rows <= u16::MAX
    }

    /// The menu of a fresh start: first tile, no scroll, 5 columns and 3
    /// visible rows until the first render.
    pub fn new() -> (s: MainMenuScreen)
        ensures
            s.cursor == 0,
            s.scroll_offset == 0,
            s.cols == 5,
            s.visible_rows == 3,
            s.wf(),
    {
        MainMenuScreen { cursor: 0, scroll_offset: 0, cols: 5, visible_rows: 3 }
    }

    /// Record the grid render laid out for an inner area.
    pub fn set_layout(&mut self, inner_width: u16, inner_height: u16)
        requires
            old(self).wf(),
        ensures
            final(self).wf(),
            final(self).cols == menu_cols(inner_width),
            final(self).visible_rows == inner_height / CELL_H,
            final(self).cursor == old(self).cursor,
            final(self).scroll_offset == old(self).scroll_offset,
    {
        self.cols = cols_for_width(inner_width);
        self.visible_rows = (inner_height / CELL_H) as usize;
    }

    fn clamp_scroll(&mut self)
        requires
            old(self).wf(),
        ensures
            final(self).wf(),
            final(self).cursor == old(self).cursor,
            final(self).cols == old(self).cols,
            final(self).visible_rows == old(self).visible_rows,
            final(self).scroll_offset == scroll_for(
                old(self).cursor as int,
                old(self).cols as int,
                old(self).scroll_offset as int,
                old(self).visible_rows as int,
            ),
    {
        let cursor_row = self.cursor / self.cols;
        let visible = if self.visible_rows < 1 {
            1
        } else {
            self.visible_rows
        };
        assert(cursor_row <= self.cursor) by (nonlinear_arith)
            requires
                cursor_row == self.cursor / self.cols,
                self.cols >= 2,
        ;
        if cursor_row < self.scroll_offset {
            self.scroll_offset = cursor_row;
        } else if cursor_row >= self.scroll_offset + visible {
            self.scroll_offset = cursor_row + 1 - visible;
        }
    }

    /// Handle a navigation event: moves as `menu_step` says and scrolls as
    /// `scroll_for` says; Confirm opens the focused tile's screen, Back
    /// goes to the screensaver; other events are not used.
    pub fn on_nav(&mut self, ev: NavEvent) -> (r: (Consumed, Option<ScreenId>))
        requires
            old(self).wf(),
        ensures
            final(self).wf(),
            final(self).cols == old(self).cols,
            final(self).visible_rows == old(self).visible_rows,
            is_move(ev) ==> {
                &&& r == (Consumed::Yes, None::<ScreenId>)
                &&& final(self).cursor == menu_step(
                    old(self).cursor as int,
                    old(self).cols as int,
                    ev,
                )
                &&& final(self).scroll_offset == scroll_for(
                    final(self).cursor as int,
                    old(self).cols as int,
                    old(self).scroll_offset as int,
                    old(self).visible_rows as int,
                )
            },
            ev == NavEvent::Confirm ==> r == (Consumed::Yes, Some(
                menu_items()[old(self).cursor as int],
            )) && *final(self) == *old(self),
            ev == NavEvent::Back ==> r == (Consumed::Yes, Some(ScreenId::Screensaver))
                && *final(self) == *old(self),
            !is_move(ev) && ev != NavEvent::Confirm && ev != NavEvent::Back ==> r == (
                Consumed::No,
                None::<ScreenId>,
            ) && *final(self) == *old(self),
    {
        let cols = self.cols;
        let total = MENU_LEN;
        let rows = (total + cols - 1) / cols;
        let col = self.cursor % cols;
        let row = self.cursor / cols;
        assert(rows >= 3 && rows <= 9 && col < cols && row <= 8 && row < rows) by (nonlinear_arith)
            requires
                2 <= cols <= 6,
                rows == (17 + cols - 1) / (cols as int),
                col == self.cursor % cols,
                row == self.cursor / cols,
                self.cursor < 17,
        ;
        match ev {
            NavEvent::Right => {
                self.cursor = (self.cursor + 1) % total;
                self.clamp_scroll();
                (Consumed::Yes, None)
            },
            NavEvent::Left => {
                self.cursor = (self.cursor + total - 1) % total;
                self.clamp_scroll();
                (Consumed::Yes, None)
            },
            NavEvent::Down => {
                let next_row = (row + 1) % rows;
                assert(next_row * cols + col < 17 * 7) by (nonlinear_arith)
                    requires
                        next_row < rows,
                        rows <= 9,
                        2 <= cols <= 6,
                        col < cols,
                ;
                let candidate = next_row * cols + col;
                self.cursor = if candidate < total {
                    candidate
                } else if col < total - 1 {
                    col
                } else {
                    total - 1
                };
                self.clamp_scroll();
                (Consumed::Yes, None)
            },
            NavEvent::Up => {
                let prev_row = (row + rows - 1) % rows;
                assert(prev_row * cols + col < 17 * 7) by (nonlinear_arith)
                    requires
                        prev_row < rows,
                        rows <= 9,
                        2 <= cols <= 6,
                        col < cols,
                ;
                let candidate = prev_row * cols + col;
                self.cursor = if candidate < total {
                    candidate
                } else {
                    total - 1
                };
                self.clamp_scroll();
                (Consumed::Yes, None)
            },
            NavEvent::Confirm => (Consumed::Yes, Some(menu_item(self.cursor))),
            NavEvent::Back => (Consumed::Yes, Some(ScreenId::Screensaver)),
            _ => (Consumed::No, None),
        }
    }
}

/// After any move the focused tile's row is on screen: the first visible
/// row is at most the cursor's row, and the cursor's row is within the
/// visible rows (at least one).
pub proof fn lemma_move_keeps_cursor_visible(s: MainMenuScreen, ev: NavEvent)
    requires
        s.wf(),
        is_move(ev),
    ensures
        ({
            let c = menu_step(s.cursor as int, s.cols as int, ev);
            let sc = scroll_for(c, s.cols as int, s.scroll_offset as int, s.visible_rows as int);
            let v = if s.visible_rows < 1 {
                1
            } else {
                s.visible_rows as int
            };
            &&& 0 <= c < MENU_LEN
            &&& sc <= c / (s.cols as int) < sc + v
        }),
{
    let cols = s.cols as int;
    let cur = s.cursor as int;
    assert(0 <= cur % cols < cols && 0 <= cur / cols <= cur) by (nonlinear_arith)
        requires
            2 <= cols <= 6,
            0 <= cur < 17,
    ;
    let rows = (17 + cols - 1) / cols;
    let row = cur / cols;
    assert(3 <= rows <= 9 && row < rows) by (nonlinear_arith)
        requires
            2 <= cols <= 6,
            rows == (17 + cols - 1) / cols,
            row == cur / cols,
            0 <= cur < 17,
    ;
    let c = menu_step(cur, cols, ev);
    assert(0 <= c < 17) by {
        if ev == NavEvent::Down {
            let nr = (row + 1) % rows;
            assert(0 <= nr * cols + cur % cols) by (nonlinear_arith)
                requires
                    0 <= nr,
                    2 <= cols,
                    0 <= cur % cols,
            ;
        } else if ev == NavEvent::Up {
            let pr = (row + rows - 1) % rows;
            assert(0 <= pr * cols + cur % cols) by (nonlinear_arith)
                requires
                    0 <= pr,
                    2 <= cols,
                    0 <= cur % cols,
            ;
        }
    }
    assert(0 <= c / cols) by (nonlinear_arith)
        requires
            0 <= c,
            2 <= cols,
    ;
}

/// Right then Left lands back on the tile it started from, and so does
/// Left then Right.
pub proof fn lemma_right_left_undo(cursor: usize, cols: usize)
    requires
        cursor < MENU_LEN,
        2 <= cols <= 6,
    ensures
        menu_step(menu_step(cursor as int, cols as int, NavEvent::Right), cols as int, NavEvent::Left)
            == cursor,
        menu_step(menu_step(cursor as int, cols as int, NavEvent::Left), cols as int, NavEvent::Right)
            == cursor,
{
}

/// A tile as drawn: which menu item, its top-left corner relative to the
/// grid area, and whether it has the focus.
pub struct MenuCell {
    pub item: usize,
    pub x: u16,
    pub y: u16,
    pub focused: bool,
}

/// How the grid is drawn in an area: the tiles of the visible rows, and
/// whether rows are hidden above and below.
pub struct MenuLayout {
    pub cells: Vec<MenuCell>,
    pub more_above: bool,
    pub more_below: bool,
}

/// The first item past the visible rows: `(scroll + visible) * cols`, at
/// most the item count.
pub open spec fn visible_end(scroll: int, cols: int, visible: int) -> int {
    if (scroll + visible) * cols < MENU_LEN {
        (scroll + visible) * cols
    } else {
        MENU_LEN as int
    }
}

impl MainMenuScreen {
    /// The grid for an area of `width` by `height` cells: as many columns
    /// as `menu_cols` says, each `width / cols` wide and `CELL_H` high; the
    /// rows from the scroll offset that fit, their tiles in order; arrows
    /// when rows are hidden above or below.
    pub fn layout(&self, width: u16, height: u16) -> (l: MenuLayout)
        requires
            self.wf(),
        ensures
            ({
                let cols = menu_cols(width);
                let cw = width as int / cols;
                let vis = height as int / CELL_H as int;
                let first = self.scroll_offset * cols;
                let end = visible_end(self.scroll_offset as int, cols, vis as int);
                let rows = (MENU_LEN + cols - 1) / cols;
                &&& l.more_above == (self.scroll_offset > 0 && height > 0)
                &&& l.more_below == (self.scroll_offset + vis < rows && height > 0)
                &&& l.cells@.len() == if end > first {
                    end - first
                } else {
                    0
                }
                &&& forall|k: int|
                    0 <= k < l.cells@.len() ==> {
                        let c = #[trigger] l.cells@[k];
                        let i = first + k;
                        &&& c.item == i
                        &&& c.x == (i % cols) * cw
                        &&& c.y == (i / cols - self.scroll_offset) * CELL_H
                        &&& c.focused == (i == self.cursor)
                    }
            }),
    {
        let cols = cols_for_width(width);
        let cw = width / (cols as u16);
        proof {
            assert(cw as int == width as int / cols as int);
        }
        let vis = (height / CELL_H) as usize;
        let scroll = self.scroll_offset;
        let rows = (MENU_LEN + cols - 1) / cols;
        let more_above = scroll > 0 && height > 0;
        let more_below = scroll + vis < rows && height > 0;
        let mut cells: Vec<MenuCell> = Vec::new();
        proof {
            assert(scroll * cols <= 102) by (nonlinear_arith)
                requires
                    scroll <= 17,
                    cols <= 6,
            ;
        }
        let first = scroll * cols;
        let ghost end = visible_end(scroll as int, cols as int, vis as int);
        let mut i = first;
        proof {
            assert(first == scroll * cols);
        }
        while i < MENU_LEN && i / cols < scroll + vis
            invariant
                2 <= cols <= 6,
                cols == menu_cols(width),
                cw as int == width as int / cols as int,
                vis as int == height as int / CELL_H as int,
                scroll <= MENU_LEN,
                first == scroll * cols,
                first <= i,
                end == visible_end(scroll as int, cols as int, vis as int),
                i <= MENU_LEN || i == first,
                cells@.len() == i - first,
                i - first <= (if end > first {
                    end - first
                } else {
                    0
                }),
                forall|k: int|
                    0 <= k < cells@.len() ==> {
                        let c = #[trigger] cells@[k];
                        let j = first + k;
                        &&& c.item == j
                        &&& c.x == (j % (cols as int)) * (cw as int)
                        &&& c.y == (j / (cols as int) - scroll) * CELL_H
                        &&& c.focused == (j == self.cursor)
                    },
            decreases MENU_LEN - i,
        {
            proof {
                assert(i / cols >= scroll) by (nonlinear_arith)
                    requires
                        i >= scroll * cols,
                        cols > 0,
                ;
            }
            let col = i % cols;
            let row = i / cols - scroll;
            proof {
                assert(col * cw <= width) by (nonlinear_arith)
                    requires
                        col < cols,
                        cw as int == width as int / cols as int,
                        cols > 0,
                ;
                assert(row < vis);
                assert(row * 4 <= height) by (nonlinear_arith)
                    requires
                        row < vis,
                        vis as int == height as int / 4,
                ;
                assert(i < end) by (nonlinear_arith)
                    requires
                        i < MENU_LEN,
                        i / cols < scroll + vis,
                        cols > 0,
                        end == visible_end(scroll as int, cols as int, vis as int),
                ;
            }
            let x = (col as u16) * cw;
            let y = (row as u16) * CELL_H;
            cells.push(MenuCell { item: i, x, y, focused: i == self.cursor });
            i += 1;
        }
        proof {
            if end > first {
                assert(i >= end) by (nonlinear_arith)
                    requires
                        !(i < MENU_LEN && i / cols < scroll + vis),
                        first <= i,
                        cols > 0,
                        end == visible_end(scroll as int, cols as int, vis as int),
                ;
            }
        }
        MenuLayout { cells, more_above, more_below }
    }
}

} // verus!
