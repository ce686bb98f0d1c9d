//! A grid of braille dots: `w_chars * 2` by `h_chars * 4` dots packed into
//! Unicode braille characters (`U+2800` plus a mask of the cell's eight
//! dots), and Bresenham lines drawn into it.
use vstd::prelude::*;

verus! {

/// A dot grid behind `w_chars` by `h_chars` terminal cells.
pub struct BrailleGrid {
    pub w_chars: u16,
    pub h_chars: u16,
    /// One byte per dot, cell by cell, eight per cell: dot (dx, dy) of a
    /// cell is byte `dy * 2 + dx` of it.
    bits: Vec<u8>,
}

/// Mathematical value of a grid: its size in cells and, per dot in the
/// storage order, whether it is lit.
pub struct BrailleGridV {
    pub w_chars: u16,
    pub h_chars: u16,
    pub dots: Seq<bool>,
}

impl View for BrailleGrid {
    type V = BrailleGridV;

    closed spec fn view(&self) -> BrailleGridV {
        BrailleGridV {
            w_chars: self.w_chars,
            h_chars: self.h_chars,
            dots: self.bits@.map_values(|b: u8| b != 0),
        }
    }
}

/// Number of dots of a grid of `w` by `h` cells.
pub open spec fn dot_total(w: u16, h: u16) -> int {
    w as int * h as int * 8
}

/// Whether dot (`x`, `y`) lies in a grid of `w` by `h` cells.
pub open spec fn in_grid(w: u16, h: u16, x: int, y: int) -> bool {
    0 <= x < 2 * w && 0 <= y < 4 * h
}

/// Storage position of dot (`x`, `y`) in a grid `w` cells wide.
pub open spec fn dot_index(w: u16, x: int, y: int) -> int {
    ((y / 4) * w + x / 2) * 8 + (y % 4) * 2 + x % 2
}

/// Whether dot (`x`, `y`) of `g` is lit.
pub open spec fn is_lit(g: BrailleGridV, x: int, y: int) -> bool {
    in_grid(g.w_chars, g.h_chars, x, y) && g.dots[dot_index(g.w_chars, x, y)]
}

/// Number of lit dots.
pub open spec fn count_lit(dots: Seq<bool>) -> nat
    decreases dots.len(),
{
    if dots.len() == 0 {
        0
    } else {
        count_lit(dots.drop_last()) + if dots.last() {
            1nat
        } else {
            0nat
        }
    }
}

/// Weight of dot `i` (0 to 7) in a cell's braille mask.
pub open spec fn dot_weight(i: int) -> int
    decreases i,
{
    if i <= 0 {
        1
    } else {
        2 * dot_weight(i - 1)
    }
}

/// Mask of the first `n` dots of the cell starting at `base`.
pub open spec fn mask_upto(dots: Seq<bool>, base: int, n: int) -> int
    decreases n,
{
    if n <= 0 {
        0
    } else {
        mask_upto(dots, base, n - 1) + if dots[base + n - 1] {
            dot_weight(n - 1)
        } else {
            0
        }
    }
}

/// The character of cell `cell`: a space when no dot is lit, else the
/// braille character of its mask.
pub open spec fn cell_char(dots: Seq<bool>, cell: int) -> char {
    let m = mask_upto(dots, cell * 8, 8);
    if m == 0 {
        ' '
    } else {
        (0x2800 + m) as char
    }
}

/// The text of cell row `cy`.
pub open spec fn row_text(g: BrailleGridV, cy: int) -> Seq<char> {
    Seq::new(g.w_chars as nat, |cx: int| cell_char(g.dots, cy * g.w_chars + cx))
}

proof fn lemma_dot_weight()
    ensures
        dot_weight(0) == 1,
        dot_weight(1) == 2,
        dot_weight(2) == 4,
        dot_weight(3) == 8,
        dot_weight(4) == 16,
        dot_weight(5) == 32,
        dot_weight(6) == 64,
        dot_weight(7) == 128,
        dot_weight(8) == 256,
{
    reveal_with_fuel(dot_weight, 9);
}

/// `dots` of a grid of `w` by `h` cells with dot (`x`, `y`) lit; a dot
/// outside the grid changes nothing.
pub open spec fn lit_dot(dots: Seq<bool>, w: u16, h: u16, x: int, y: int) -> Seq<bool> {
    if in_grid(w, h, x, y) {
        dots.update(dot_index(w, x, y), true)
    } else {
        dots
    }
}

/// Two dots of the grid never share a storage position.
proof fn lemma_dot_index_injective(w: u16, h: u16, x: int, y: int, x2: int, y2: int)
    requires
        in_grid(w, h, x, y),
        in_grid(w, h, x2, y2),
        dot_index(w, x, y) == dot_index(w, x2, y2),
    ensures
        x == x2,
        y == y2,
{
    let a = (y / 4) * w + x / 2;
    let a2 = (y2 / 4) * w + x2 / 2;
    let r = (y % 4) * 2 + x % 2;
    let r2 = (y2 % 4) * 2 + x2 % 2;
    assert(0 <= x / 2 < w && 0 <= x2 / 2 < w && 0 <= y / 4 && 0 <= y2 / 4) by (nonlinear_arith)
        requires
            0 <= x < 2 * w,
            0 <= x2 < 2 * w,
            0 <= y,
            0 <= y2,
    ;
    assert(a == a2 && r == r2) by (nonlinear_arith)
        requires
            a * 8 + r == a2 * 8 + r2,
            0 <= r < 8,
            0 <= r2 < 8,
    ;
    assert(x % 2 == x2 % 2 && y % 4 == y2 % 4);
    assert(y / 4 == y2 / 4 && x / 2 == x2 / 2) by (nonlinear_arith)
        requires
            (y / 4) * w + x / 2 == (y2 / 4) * w + x2 / 2,
            0 <= x / 2 < w,
            0 <= x2 / 2 < w,
            0 <= y / 4,
            0 <= y2 / 4,
    ;
}

/// Lighting a dot lights exactly that dot, if it lies in the grid: every
/// other dot keeps its state, so overlapping draws accumulate.
pub proof fn lemma_lit_dot_exact(dots: Seq<bool>, w: u16, h: u16, x: int, y: int, x2: int, y2: int)
    requires
        dots.len() == dot_total(w, h),
        in_grid(w, h, x2, y2),
    ensures
        lit_dot(dots, w, h, x, y).len() == dots.len(),
        lit_dot(dots, w, h, x, y)[dot_index(w, x2, y2)] == (dots[dot_index(w, x2, y2)] || (in_grid(
            w,
            h,
            x,
            y,
        ) && x2 == x && y2 == y)),
{
    lemma_dot_index(w, h, x2, y2);
    if in_grid(w, h, x, y) {
        lemma_dot_index(w, h, x, y);
        if dot_index(w, x, y) == dot_index(w, x2, y2) {
            lemma_dot_index_injective(w, h, x, y, x2, y2);
        }
    }
}

/// Lighting a dot twice is lighting it once, and the order in which two
/// dots are lit does not matter.
pub proof fn lemma_lit_dot_idempotent_commutes(dots: Seq<bool>, w: u16, h: u16, x: int, y: int, x2: int, y2: int)
    requires
        dots.len() == dot_total(w, h),
    ensures
        lit_dot(lit_dot(dots, w, h, x, y), w, h, x, y) == lit_dot(dots, w, h, x, y),
        lit_dot(lit_dot(dots, w, h, x, y), w, h, x2, y2) == lit_dot(lit_dot(dots, w, h, x2, y2), w, h, x, y),
{
    if in_grid(w, h, x, y) {
        lemma_dot_index(w, h, x, y);
    }
    if in_grid(w, h, x2, y2) {
        lemma_dot_index(w, h, x2, y2);
    }
    assert(lit_dot(lit_dot(dots, w, h, x, y), w, h, x, y) =~= lit_dot(dots, w, h, x, y));
    assert(lit_dot(lit_dot(dots, w, h, x, y), w, h, x2, y2) =~= lit_dot(lit_dot(dots, w, h, x2, y2), w, h, x, y));
}

proof fn lemma_dot_index(w: u16, h: u16, x: int, y: int)
    requires
        in_grid(w, h, x, y),
    ensures
        0 <= dot_index(w, x, y) < dot_total(w, h),
{
    let cx = x / 2;
    let cy = y / 4;
    assert(0 <= cx < w && 0 <= cy < h && 0 <= x % 2 < 2 && 0 <= y % 4 < 4) by (nonlinear_arith)
        requires
            0 <= x < 2 * w,
            0 <= y < 4 * h,
            cx == x / 2,
            cy == y / 4,
    ;
    assert(0 <= cy * w + cx < h * w) by (nonlinear_arith)
        requires
            0 <= cx < w,
            0 <= cy < h,
    ;
    assert(dot_total(w, h) == (h * w) * 8) by (nonlinear_arith);
}

proof fn lemma_count_lit_update(s: Seq<bool>, i: int)
    requires
        0 <= i < s.len(),
    ensures
        count_lit(s.update(i, true)) == count_lit(s) + if s[i] {
            0nat
        } else {
            1nat
        },
    decreases s.len(),
{
    if i == s.len() - 1 {
        assert(s.update(i, true).drop_last() =~= s.drop_last());
    } else {
        lemma_count_lit_update(s.drop_last(), i);
        assert(s.update(i, true).drop_last() =~= s.drop_last().update(i, true));
    }
}

/// Braille characters by `char::from_u32`: the character of a Unicode
/// scalar value, `None` for a surrogate or a value past `0x10FFFF`.
#[verifier::external_body]
fn char_from_u32(v: u32) -> (r: Option<char>)
    ensures
        (v <= 0xD7FF || (0xE000 <= v && v <= 0x10FFFF)) ==> r == Some(v as char),
        !(v <= 0xD7FF || (0xE000 <= v && v <= 0x10FFFF)) ==> r is None,
{
    char::from_u32(v)
}

impl BrailleGrid {
    /// Storage in step with the size; every byte 0 or 1.
    pub closed spec fn wf(&self) -> bool {
        &&& self.bits@.len() == dot_total(self.w_chars, self.h_chars)
        &&& forall|i: int| 0 <= i < self.bits@.len() ==> self.bits@[i] <= 1
    }

    /// A well-formed grid holds one dot per dot position of its size.
    pub proof fn lemma_dot_count(&self)
        requires
            self.wf(),
        ensures
            self@.dots.len() == dot_total(self@.w_chars, self@.h_chars),
    {
    }

    /// An empty grid of `w_chars` by `h_chars` cells.
    pub fn new(w_chars: u16, h_chars: u16) -> (g: BrailleGrid)
        requires
            dot_total(w_chars, h_chars) <= usize::MAX,
        ensures
            g.wf(),
            g@.w_chars == w_chars,
            g@.h_chars == h_chars,
            g@.dots == Seq::new(dot_total(w_chars, h_chars) as nat, |i: int| false),
    {
        assert((w_chars as int) * (h_chars as int) * 8 == dot_total(w_chars, h_chars)
            && (w_chars as int) * (h_chars as int) <= dot_total(w_chars, h_chars));
        let n = (w_chars as usize) * (h_chars as usize) * 8;
        let bits = vec![0u8; n];
        let g = BrailleGrid { w_chars, h_chars, bits };
        assert(g@.dots =~= Seq::new(dot_total(w_chars, h_chars) as nat, |i: int| false));
        g
    }

    /// Light dot (`x`, `y`); a dot outside the grid is ignored.
    pub fn set_dot(&mut self, x: i32, y: i32)
        requires
            old(self).wf(),
        ensures
            final(self).wf(),
            final(self)@.w_chars == old(self)@.w_chars,
            final(self)@.h_chars == old(self)@.h_chars,
            final(self)@.dots == lit_dot(old(self)@.dots, old(self)@.w_chars, old(self)@.h_chars, x as int, y as int),
            final(self)@.dots.len() == dot_total(final(self)@.w_chars, final(self)@.h_chars),
            count_lit(final(self)@.dots) == count_lit(old(self)@.dots) + if in_grid(
                old(self)@.w_chars,
                old(self)@.h_chars,
                x as int,
                y as int,
            ) && !is_lit(old(self)@, x as int, y as int) {
                1nat
            } else {
                0nat
            },
    {
        proof {
            if in_grid(self.w_chars, self.h_chars, x as int, y as int) {
                lemma_dot_index(self.w_chars, self.h_chars, x as int, y as int);
                lemma_count_lit_update(self@.dots, dot_index(self.w_chars, x as int, y as int));
            }
        }
        if x < 0 || y < 0 {
            return;
        }
        let xu = x as u32;
        let yu = y as u32;
        let w = self.w_chars as u32 * 2;
        let h = self.h_chars as u32 * 4;
        if xu >= w || yu >= h {
            return;
        }
        let _len = self.bits.len();
        let cx = xu / 2;
        let cy = yu / 4;
        let dx = xu % 2;
        let dy = yu % 4;
        let bit = (dy * 2 + dx) as usize;
        proof {
            lemma_dot_index(self.w_chars, self.h_chars, x as int, y as int);
        }
        assert((cy as int) * (self.w_chars as int) + (cx as int) < (self.h_chars as int) * (
        self.w_chars as int)) by (nonlinear_arith)
            requires
                cy as int == y as int / 4,
                cx as int == x as int / 2,
                0 <= y < 4 * self.h_chars,
                0 <= x < 2 * self.w_chars,
        ;
        assert((self.h_chars as int) * (self.w_chars as int) * 8 == self.bits@.len()) by (
        nonlinear_arith)
            requires
                self.bits@.len() == dot_total(self.w_chars, self.h_chars),
        ;
        let cell = (cy as usize) * (self.w_chars as usize) + (cx as usize);
        assert(cell * 8 + bit == dot_index(self.w_chars, x as int, y as int));
        let ghost before = self@.dots;
        self.bits.set(cell * 8 + bit, 1);
        assert(self@.dots =~= before.update(dot_index(self.w_chars, x as int, y as int), true));
    }

    /// Number of lit dots.
    pub fn lit_count(&self) -> (r: usize)
        requires
            self.wf(),
        ensures
            r == count_lit(self@.dots),
    {
        let mut n: usize = 0;
        for i in 0..self.bits.len()
            invariant
                n == count_lit(self.bits@.take(i as int).map_values(|b: u8| b != 0)),
                n <= i,
        {
            assert(self.bits@.take(i + 1).map_values(|b: u8| b != 0).drop_last()
                =~= self.bits@.take(i as int).map_values(|b: u8| b != 0));
            if self.bits[i] != 0 {
                n += 1;
            }
        }
        assert(self.bits@.take(self.bits@.len() as int) =~= self.bits@);
        n
    }

    /// The grid as text, one string per cell row (see `row_text`).
    pub fn to_rows(&self) -> (r: Vec<String>)
        requires
            self.wf(),
        ensures
            r@.len() == self@.h_chars,
            forall|cy: int| 0 <= cy < r@.len() ==> (#[trigger] r@[cy])@ == row_text(self@, cy),
    {
        let mut out: Vec<String> = Vec::new();
        let w = self.w_chars as usize;
        let _len = self.bits.len();
        for cy in 0..self.h_chars as usize
            invariant
                self.wf(),
                w == self.w_chars,
                self.bits@.len() <= usize::MAX,
                out@.len() == cy,
                forall|k: int| 0 <= k < cy ==> (#[trigger] out@[k])@ == row_text(self@, k),
        {
            let mut s = String::new();
            for cx in 0..w
                invariant
                    self.wf(),
                    w == self.w_chars,
                    self.bits@.len() <= usize::MAX,
                    cy < self.h_chars,
                    s@ == row_text(self@, cy as int).take(cx as int),
            {
                assert(cy * w + cx < (self.h_chars as int) * (self.w_chars as int)
                    && (cy * w + cx) * 8 + 8 <= self.bits@.len()) by (nonlinear_arith)
                    requires
                        cy < self.h_chars,
                        cx < w,
                        w == self.w_chars,
                        self.bits@.len() == dot_total(self.w_chars, self.h_chars),
                ;
                let cell = cy * w + cx;
                let base = cell * 8;
                let mut mask: u32 = 0;
                let mut weight: u32 = 1;
                for i in 0..8usize
                    invariant
                        self.wf(),
                        self.bits@.len() <= usize::MAX,
                        base + 8 <= self.bits@.len(),
                        weight == dot_weight(i as int),
                        mask == mask_upto(self@.dots, base as int, i as int),
                        mask < weight,
                        weight <= 256,
                        i <= 7 ==> weight <= 128,
                {
                    proof {
                        lemma_dot_weight();
                    }
                    if self.bits[base + i] != 0 {
                        mask = mask + weight;
                    }
                    weight = weight * 2;
                }
                let c = if mask == 0 {
                    ' '
                } else {
                    match char_from_u32(0x2800 + mask) {
                        Some(c) => c,
                        None => ' ',
                    }
                };
                crate::text::push_char(&mut s, c);
                assert(s@ =~= row_text(self@, cy as int).take(cx + 1));
            }
            assert(s@ =~= row_text(self@, cy as int));
            out.push(s);
        }
        out
    }
}

// ─── Lines ──────────────────────────────────────────────────────────────

pub open spec fn abs_int(v: int) -> int {
    if v < 0 {
        -v
    } else {
        v
    }
}

/// One step of a digital line: each coordinate stays or moves one dot in
/// its direction (`sx`, `sy`), and at least one moves.
pub open spec fn king_step(a: (int, int), b: (int, int), sx: int, sy: int) -> bool {
    &&& (b.0 == a.0 || b.0 == a.0 + sx)
    &&& (b.1 == a.1 || b.1 == a.1 + sy)
    &&& b != a
}

/// Dot `p` is within half a dot of the ideal line from (`x0`, `y0`) with
/// extents `dx`, `dy` (measured along the longer axis, scaled by it).
pub open spec fn near_line(p: (int, int), x0: int, y0: int, dx: int, dy: int) -> bool {
    let i = abs_int(p.0 - x0);
    let j = abs_int(p.1 - y0);
    let m = if dx >= dy {
        dx
    } else {
        dy
    };
    -m <= 2 * (dx * j - dy * i) <= m
}

/// One step of Bresenham's walk over extents `ddx`, `ddy` from walk state
/// `s` = (dots moved along x, dots moved along y, error term): both
/// decisions are taken on the error term before the step.
pub open spec fn bres_step(ddx: int, ddy: int, s: (int, int, int)) -> (int, int, int) {
    let e = s.2;
    let ex = if steps_x(ddx, ddy, e) {
        ddy
    } else {
        0
    };
    let ey = if steps_y(ddx, ddy, e) {
        ddx
    } else {
        0
    };
    (
        if steps_x(ddx, ddy, e) {
            s.0 + 1
        } else {
            s.0
        },
        if steps_y(ddx, ddy, e) {
            s.1 + 1
        } else {
            s.1
        },
        e - ex + ey,
    )
}

/// The walk state after `k` steps from the start.
#[verifier::opaque]
pub open spec fn bres_state(ddx: int, ddy: int, k: nat) -> (int, int, int)
    decreases k,
{
    if k == 0 {
        (0, 0, 0)
    } else {
        bres_step(ddx, ddy, bres_state(ddx, ddy, (k - 1) as nat))
    }
}

/// Dot `k` of Bresenham's line from (`x0`, `y0`) to (`x1`, `y1`).
pub open spec fn bres_point(x0: int, y0: int, x1: int, y1: int, k: nat) -> (int, int) {
    let s = bres_state(abs_int(x1 - x0), abs_int(y1 - y0), k);
    (
        if x0 < x1 {
            x0 + s.0
        } else {
            x0 - s.0
        },
        if y0 < y1 {
            y0 + s.1
        } else {
            y0 - s.1
        },
    )
}

/// `p` is the Bresenham line from (`x0`, `y0`) to (`x1`, `y1`): one dot per
/// step of the longer axis, both ends included, dot `k` being
/// `bres_point(.., k)`; so each step is a move of at most one dot per axis
/// towards the far end, and every dot lies within half a dot of the ideal
/// line.
pub open spec fn line_path(p: Seq<(int, int)>, x0: int, y0: int, x1: int, y1: int) -> bool {
    let dx = abs_int(x1 - x0);
    let dy = abs_int(y1 - y0);
    let sx = if x0 < x1 {
        1int
    } else {
        -1int
    };
    let sy = if y0 < y1 {
        1int
    } else {
        -1int
    };
    &&& p.len() == (if dx >= dy {
        dx
    } else {
        dy
    }) + 1
    &&& p[0] == (x0, y0)
    &&& p[p.len() - 1] == (x1, y1)
    &&& forall|k: int| 0 <= k < p.len() - 1 ==> king_step(#[trigger] p[k], p[k + 1], sx, sy)
    &&& forall|k: int| 0 <= k < p.len() ==> near_line(#[trigger] p[k], x0, y0, dx, dy)
    &&& bresenham_dots(p, x0, y0, x1, y1)
}

/// Dot `k` of `p` is dot `k` of Bresenham's line from (`x0`, `y0`) to
/// (`x1`, `y1`), for every `k`.
#[verifier::opaque]
pub open spec fn bresenham_dots(p: Seq<(int, int)>, x0: int, y0: int, x1: int, y1: int) -> bool {
    forall|k: int| 0 <= k < p.len() ==> #[trigger] p[k] == bres_point(x0, y0, x1, y1, k as nat)
}

/// The dots after lighting the dots of `p` in order (those outside the
/// grid are skipped).
pub open spec fn painted(dots: Seq<bool>, w: u16, h: u16, p: Seq<(int, int)>) -> Seq<bool>
    decreases p.len(),
{
    if p.len() == 0 {
        dots
    } else {
        let d = painted(dots, w, h, p.drop_last());
        let q = p.last();
        if in_grid(w, h, q.0, q.1) {
            d.update(dot_index(w, q.0, q.1), true)
        } else {
            d
        }
    }
}


/// The extent of the longer axis.
pub open spec fn major(ddx: int, ddy: int) -> int {
    if ddx >= ddy {
        ddx
    } else {
        ddy
    }
}

/// Whether the loop steps along x for error term `e`.
pub open spec fn steps_x(ddx: int, ddy: int, e: int) -> bool {
    2 * (e + ddx - ddy) >= -ddy
}

/// Whether the loop steps along y for error term `e`.
pub open spec fn steps_y(ddx: int, ddy: int, e: int) -> bool {
    2 * (e + ddx - ddy) <= ddx
}

proof fn lemma_line_ends(ddx: int, ddy: int, i: int, j: int, e: int)
    requires
        0 <= ddx,
        0 <= ddy,
        0 <= i <= ddx,
        0 <= j <= ddy,
        !(i == ddx && j == ddy),
        e == ddx * j - ddy * i,
    ensures
        i == ddx ==> e <= -ddx && j < ddy,
        j == ddy ==> e >= ddy && i < ddx,
{
    if i == ddx {
        assert(ddx * j - ddy * ddx <= -ddx) by (nonlinear_arith)
            requires
                0 <= j < ddy,
                0 <= ddx,
        ;
    }
    if j == ddy {
        assert(ddx * ddy - ddy * i >= ddy) by (nonlinear_arith)
            requires
                0 <= i < ddx,
                0 <= ddy,
        ;
    }
}

/// One step of the line loop from a dot that is not the far end: which
/// axes move, and that the error term stays within half a dot.
#[verifier::spinoff_prover]
proof fn lemma_line_step(ddx: int, ddy: int, i: int, j: int, e: int)
    requires
        0 <= ddx,
        0 <= ddy,
        0 <= i <= ddx,
        0 <= j <= ddy,
        !(i == ddx && j == ddy),
        e == ddx * j - ddy * i,
        -major(ddx, ddy) <= 2 * e <= major(ddx, ddy),
    ensures
        steps_x(ddx, ddy, e) || steps_y(ddx, ddy, e),
        steps_x(ddx, ddy, e) ==> i < ddx,
        steps_y(ddx, ddy, e) ==> j < ddy,
        ddx >= ddy ==> steps_x(ddx, ddy, e),
        ddx < ddy ==> steps_y(ddx, ddy, e),
        steps_x(ddx, ddy, e) && !steps_y(ddx, ddy, e) ==> e - ddy == ddx * j - ddy * (i + 1) && -major(
            ddx,
            ddy,
        ) <= 2 * (e - ddy) <= major(ddx, ddy),
        !steps_x(ddx, ddy, e) && steps_y(ddx, ddy, e) ==> e + ddx == ddx * (j + 1) - ddy * i && -major(
            ddx,
            ddy,
        ) <= 2 * (e + ddx) <= major(ddx, ddy),
        steps_x(ddx, ddy, e) && steps_y(ddx, ddy, e) ==> e - ddy + ddx == ddx * (j + 1) - ddy * (i
            + 1) && -major(ddx, ddy) <= 2 * (e - ddy + ddx) <= major(ddx, ddy),
{
    lemma_line_ends(ddx, ddy, i, j, e);
    assert(ddx * j - ddy * (i + 1) == e - ddy) by (nonlinear_arith)
        requires
            e == ddx * j - ddy * i,
    ;
    assert(ddx * (j + 1) - ddy * i == e + ddx) by (nonlinear_arith)
        requires
            e == ddx * j - ddy * i,
    ;
    assert(ddx * (j + 1) - ddy * (i + 1) == e + ddx - ddy) by (nonlinear_arith)
        requires
            e == ddx * j - ddy * i,
    ;
}

proof fn lemma_path_push(
    p: Seq<(int, int)>,
    q: (int, int),
    x0: int,
    y0: int,
    ddx: int,
    ddy: int,
    sx: int,
    sy: int,
)
    requires
        p.len() > 0 ==> p[0] == (x0, y0),
        p.len() == 0 ==> q == (x0, y0),
        p.len() > 0 ==> king_step(p[p.len() - 1], q, sx, sy),
        forall|k: int| 0 <= k < p.len() - 1 ==> king_step(#[trigger] p[k], p[k + 1], sx, sy),
        forall|k: int| 0 <= k < p.len() ==> near_line(#[trigger] p[k], x0, y0, ddx, ddy),
        near_line(q, x0, y0, ddx, ddy),
    ensures
        p.push(q)[0] == (x0, y0),
        forall|k: int|
            0 <= k < p.push(q).len() - 1 ==> king_step(#[trigger] p.push(q)[k], p.push(q)[k + 1], sx, sy),
        forall|k: int| 0 <= k < p.push(q).len() ==> near_line(#[trigger] p.push(q)[k], x0, y0, ddx, ddy),
{
    let pq = p.push(q);
    assert forall|k: int| 0 <= k < pq.len() - 1 implies king_step(
        #[trigger] pq[k],
        pq[k + 1],
        sx,
        sy,
    ) by {
        if k < p.len() - 1 {
            assert(pq[k] == p[k] && pq[k + 1] == p[k + 1]);
        } else {
            assert(pq[k] == p[p.len() - 1] && pq[k + 1] == q);
        }
    }
    assert forall|k: int| 0 <= k < pq.len() implies near_line(#[trigger] pq[k], x0, y0, ddx, ddy) by {
        if k < p.len() {
            assert(pq[k] == p[k]);
        }
    }
}

/// One step of the line loop from walk state `n`, not the far end: the
/// next state, which axes move, and that the error term stays within half
/// a dot.
proof fn lemma_line_next(ddx: int, ddy: int, i: int, j: int, e: int, n: nat)
    requires
        (i, j, e) == bres_state(ddx, ddy, n),
        0 <= ddx,
        0 <= ddy,
        0 <= i <= ddx,
        0 <= j <= ddy,
        !(i == ddx && j == ddy),
        e == ddx * j - ddy * i,
        -major(ddx, ddy) <= 2 * e <= major(ddx, ddy),
    ensures
        ({
            let s = bres_state(ddx, ddy, n + 1);
            &&& s.0 == if steps_x(ddx, ddy, e) {
                i + 1
            } else {
                i
            }
            &&& s.1 == if steps_y(ddx, ddy, e) {
                j + 1
            } else {
                j
            }
            &&& s.2 == e - (if steps_x(ddx, ddy, e) {
                ddy
            } else {
                0
            }) + (if steps_y(ddx, ddy, e) {
                ddx
            } else {
                0
            })
            &&& 0 <= s.0 <= ddx
            &&& 0 <= s.1 <= ddy
            &&& s.2 == ddx * s.1 - ddy * s.0
            &&& -major(ddx, ddy) <= 2 * s.2 <= major(ddx, ddy)
            &&& steps_x(ddx, ddy, e) || steps_y(ddx, ddy, e)
            &&& ddx >= ddy ==> steps_x(ddx, ddy, e)
            &&& ddx < ddy ==> steps_y(ddx, ddy, e)
        }),
{
    lemma_line_step(ddx, ddy, i, j, e);
    reveal_with_fuel(bres_state, 2);
    assert(bres_state(ddx, ddy, n + 1) == bres_step(ddx, ddy, bres_state(ddx, ddy, n)));
}

proof fn lemma_bres_push(p: Seq<(int, int)>, q: (int, int), x0: int, y0: int, x1: int, y1: int)
    requires
        bresenham_dots(p, x0, y0, x1, y1),
        q == bres_point(x0, y0, x1, y1, p.len()),
    ensures
        bresenham_dots(p.push(q), x0, y0, x1, y1),
{
    reveal(bresenham_dots);
    assert forall|k: int| 0 <= k < p.push(q).len() implies #[trigger] p.push(q)[k] == bres_point(
        x0,
        y0,
        x1,
        y1,
        k as nat,
    ) by {
        if k < p.len() {
            assert(p.push(q)[k] == p[k]);
        }
    }
}

/// Draw the Bresenham line from (`x0`, `y0`) to (`x1`, `y1`) into the grid:
/// every dot of the line that falls inside the grid is lit.
#[verifier::spinoff_prover]
#[verifier::rlimit(100)]
pub fn line(grid: &mut BrailleGrid, x0: i32, y0: i32, x1: i32, y1: i32)
    requires
        old(grid).wf(),
    ensures
        final(grid).wf(),
        final(grid)@.w_chars == old(grid)@.w_chars,
        final(grid)@.h_chars == old(grid)@.h_chars,
        exists|p: Seq<(int, int)>|
            #![auto]
            line_path(p, x0 as int, y0 as int, x1 as int, y1 as int) && final(grid)@.dots
                == painted(old(grid)@.dots, old(grid)@.w_chars, old(grid)@.h_chars, p),
        final(grid)@.dots.len() == dot_total(final(grid)@.w_chars, final(grid)@.h_chars),
        in_grid(old(grid)@.w_chars, old(grid)@.h_chars, x0 as int, y0 as int) ==> is_lit(
            final(grid)@,
            x0 as int,
            y0 as int,
        ),
        in_grid(old(grid)@.w_chars, old(grid)@.h_chars, x1 as int, y1 as int) ==> is_lit(
            final(grid)@,
            x1 as int,
            y1 as int,
        ),
        count_lit(old(grid)@.dots) == 0 && in_grid(old(grid)@.w_chars, old(grid)@.h_chars, x0 as int, y0 as int)
            && in_grid(old(grid)@.w_chars, old(grid)@.h_chars, x1 as int, y1 as int) ==> count_lit(
            final(grid)@.dots,
        ) == major(abs_int(x1 - x0), abs_int(y1 - y0)) + 1,
{
    let ghost w = grid@.w_chars;
    let ghost h = grid@.h_chars;
    let ghost dots0 = grid@.dots;
    let dx: i64 = if x1 >= x0 {
        x1 as i64 - x0 as i64
    } else {
        x0 as i64 - x1 as i64
    };
    let dy: i64 = if y1 >= y0 {
        -(y1 as i64 - y0 as i64)
    } else {
        -(y0 as i64 - y1 as i64)
    };
    let sx: i32 = if x0 < x1 {
        1
    } else {
        -1
    };
    let sy: i32 = if y0 < y1 {
        1
    } else {
        -1
    };
    let ghost ddx: int = dx as int;
    let ghost ddy: int = -(dy as int);
    let ghost m: int = if ddx >= ddy {
        ddx
    } else {
        ddy
    };
    let mut err: i64 = dx + dy;
    let mut x = x0;
    let mut y = y0;
    let ghost mut p: Seq<(int, int)> = Seq::empty();
    let ghost mut i: int = 0;
    let ghost mut j: int = 0;
    let ghost mut e: int = 0;
    assert(bres_state(ddx, ddy, 0) == (0int, 0int, 0int)) by {
        reveal_with_fuel(bres_state, 1);
    }
    assert(bresenham_dots(Seq::<(int, int)>::empty(), x0 as int, y0 as int, x1 as int, y1 as int)) by {
        reveal(bresenham_dots);
    }
    assert(ddx * 0 - ddy * 0 == 0) by (nonlinear_arith);
    loop
        invariant_except_break
            0 <= i <= ddx,
            0 <= j <= ddy,
            p.len() == 0 ==> i == 0 && j == 0,
            p.len() == if ddx >= ddy {
                i
            } else {
                j
            },
            p.len() > 0 ==> king_step(p[p.len() - 1], (x as int, y as int), sx as int, sy as int),
            (i, j, e) == bres_state(ddx, ddy, p.len()),
            e == ddx * j - ddy * i,
            err == e + ddx - ddy,
            -m <= 2 * e <= m,
            x as int == (if x0 < x1 {
                x0 + i
            } else {
                x0 - i
            }),
            y as int == (if y0 < y1 {
                y0 + j
            } else {
                y0 - j
            }),
        invariant
            grid.wf(),
            grid@.w_chars == w,
            grid@.h_chars == h,
            ddx == abs_int(x1 - x0),
            ddy == abs_int(y1 - y0),
            dx == ddx,
            dy == -ddy,
            ddx <= 0xFFFF_FFFF,
            ddy <= 0xFFFF_FFFF,
            m == if ddx >= ddy {
                ddx
            } else {
                ddy
            },
            sx == (if x0 < x1 {
                1int
            } else {
                -1int
            }),
            sy == (if y0 < y1 {
                1int
            } else {
                -1int
            }),
            p.len() > 0 ==> p[0] == (x0 as int, y0 as int),
            forall|k: int|
                0 <= k < p.len() - 1 ==> king_step(#[trigger] p[k], p[k + 1], sx as int, sy as int),
            forall|k: int| 0 <= k < p.len() ==> near_line(#[trigger] p[k], x0 as int, y0 as int, ddx, ddy),
            bresenham_dots(p, x0 as int, y0 as int, x1 as int, y1 as int),
            grid@.dots == painted(dots0, w, h, p),
        ensures
            p.len() == m + 1,
            p[p.len() - 1] == (x1 as int, y1 as int),
        decreases m - p.len(),
    {
        grid.set_dot(x, y);
        proof {
            let q = (x as int, y as int);
            assert(near_line(q, x0 as int, y0 as int, ddx, ddy));
            lemma_path_push(p, q, x0 as int, y0 as int, ddx, ddy, sx as int, sy as int);
            let p0 = p;
            lemma_bres_push(p0, q, x0 as int, y0 as int, x1 as int, y1 as int);
            p = p.push(q);
            assert(p.drop_last() =~= p0);
        }
        if x == x1 && y == y1 {
            break;
        }
        let ghost nx = bres_state(ddx, ddy, p.len());
        proof {
            lemma_line_next(ddx, ddy, i, j, e, (p.len() - 1) as nat);
        }
        let e2 = 2 * err;
        assert(e2 >= dy <==> steps_x(ddx, ddy, e));
        assert(e2 <= dx <==> steps_y(ddx, ddy, e));
        if e2 >= dy {
            err += dy;
            x += sx;
        }
        if e2 <= dx {
            err += dx;
            y += sy;
        }
        proof {
            i = nx.0;
            j = nx.1;
            e = nx.2;
        }
        assert(-m <= 2 * e <= m);
    }
    assert(line_path(p, x0 as int, y0 as int, x1 as int, y1 as int));
    proof {
        if in_grid(w, h, x0 as int, y0 as int) {
            lemma_painted_lights(dots0, w, h, p, 0);
        }
        if in_grid(w, h, x1 as int, y1 as int) {
            lemma_painted_lights(dots0, w, h, p, p.len() - 1);
        }
        if count_lit(dots0) == 0 && in_grid(w, h, x0 as int, y0 as int) && in_grid(w, h, x1 as int, y1 as int) {
            lemma_count_lit_zero(dots0);
            lemma_line_dot_count(w, h, p, x0 as int, y0 as int, x1 as int, y1 as int);
        }
    }
}

proof fn lemma_painted_len(d: Seq<bool>, w: u16, h: u16, p: Seq<(int, int)>)
    requires
        d.len() == dot_total(w, h),
    ensures
        painted(d, w, h, p).len() == d.len(),
    decreases p.len(),
{
    if p.len() > 0 {
        lemma_painted_len(d, w, h, p.drop_last());
        let q = p.last();
        if in_grid(w, h, q.0, q.1) {
            lemma_dot_index(w, h, q.0, q.1);
        }
    }
}

/// Every dot of `p` inside the grid is lit after painting `p`.
proof fn lemma_painted_lights(d: Seq<bool>, w: u16, h: u16, p: Seq<(int, int)>, k: int)
    requires
        d.len() == dot_total(w, h),
        0 <= k < p.len(),
        in_grid(w, h, p[k].0, p[k].1),
    ensures
        painted(d, w, h, p)[dot_index(w, p[k].0, p[k].1)],
    decreases p.len(),
{
    let p0 = p.drop_last();
    let q = p.last();
    lemma_painted_len(d, w, h, p0);
    lemma_dot_index(w, h, p[k].0, p[k].1);
    if in_grid(w, h, q.0, q.1) {
        lemma_dot_index(w, h, q.0, q.1);
    }
    if k < p.len() - 1 {
        assert(p0[k] == p[k]);
        lemma_painted_lights(d, w, h, p0, k);
    }
}

/// No dot lit means every dot is dark.
proof fn lemma_count_lit_zero(s: Seq<bool>)
    requires
        count_lit(s) == 0,
    ensures
        s == Seq::new(s.len(), |i: int| false),
    decreases s.len(),
{
    if s.len() > 0 {
        lemma_count_lit_zero(s.drop_last());
        assert(s =~= Seq::new(s.len(), |i: int| false)) by {
            assert forall|i: int| 0 <= i < s.len() implies !s[i] by {
                if i < s.len() - 1 {
                    assert(s[i] == s.drop_last()[i]);
                }
            }
        }
    } else {
        assert(s =~= Seq::new(s.len(), |i: int| false));
    }
}

/// The walk state after `k` steps, `k` at most the longer extent: within
/// the extents, error term exact and within half a dot, and the longer
/// axis moved exactly `k` dots.
proof fn lemma_bres_major(ddx: int, ddy: int, k: nat)
    requires
        0 <= ddx,
        0 <= ddy,
        k <= major(ddx, ddy),
    ensures
        ({
            let s = bres_state(ddx, ddy, k);
            &&& 0 <= s.0 <= ddx
            &&& 0 <= s.1 <= ddy
            &&& s.2 == ddx * s.1 - ddy * s.0
            &&& -major(ddx, ddy) <= 2 * s.2 <= major(ddx, ddy)
            &&& ddx >= ddy ==> s.0 == k
            &&& ddx < ddy ==> s.1 == k
        }),
    decreases k,
{
    if k == 0 {
        reveal_with_fuel(bres_state, 1);
        assert(ddx * 0 - ddy * 0 == 0) by (nonlinear_arith);
    } else {
        lemma_bres_major(ddx, ddy, (k - 1) as nat);
        let s = bres_state(ddx, ddy, (k - 1) as nat);
        lemma_line_next(ddx, ddy, s.0, s.1, s.2, (k - 1) as nat);
    }
}

/// Painting dots of `q` leaves storage position `i` alone when no dot of
/// `q` inside the grid is stored there.
proof fn lemma_painted_untouched(d: Seq<bool>, w: u16, h: u16, q: Seq<(int, int)>, i: int)
    requires
        d.len() == dot_total(w, h),
        0 <= i < d.len(),
        forall|k: int|
            0 <= k < q.len() && in_grid(w, h, q[k].0, q[k].1) ==> dot_index(w, q[k].0, q[k].1) != i,
    ensures
        painted(d, w, h, q).len() == d.len(),
        painted(d, w, h, q)[i] == d[i],
    decreases q.len(),
{
    if q.len() > 0 {
        let q0 = q.drop_last();
        assert forall|k: int|
            0 <= k < q0.len() && in_grid(w, h, q0[k].0, q0[k].1) implies dot_index(
            w,
            q0[k].0,
            q0[k].1,
        ) != i by {
            assert(q0[k] == q[k]);
        }
        lemma_painted_untouched(d, w, h, q0, i);
        let l = q.last();
        if in_grid(w, h, l.0, l.1) {
            lemma_dot_index(w, h, l.0, l.1);
            assert(in_grid(w, h, q[q.len() - 1].0, q[q.len() - 1].1));
        }
    }
}

/// Painting distinct dots, all inside the grid and none lit before,
/// lights one more dot per dot painted.
proof fn lemma_painted_count(d: Seq<bool>, w: u16, h: u16, p: Seq<(int, int)>)
    requires
        d.len() == dot_total(w, h),
        forall|k: int| 0 <= k < p.len() ==> in_grid(w, h, (#[trigger] p[k]).0, p[k].1),
        forall|a: int, b: int| 0 <= a < b < p.len() ==> #[trigger] p[a] != #[trigger] p[b],
        forall|k: int| 0 <= k < p.len() ==> !d[dot_index(w, (#[trigger] p[k]).0, p[k].1)],
    ensures
        painted(d, w, h, p).len() == d.len(),
        count_lit(painted(d, w, h, p)) == count_lit(d) + p.len(),
    decreases p.len(),
{
    if p.len() > 0 {
        let p0 = p.drop_last();
        let q = p.last();
        assert forall|k: int| 0 <= k < p0.len() implies in_grid(w, h, (#[trigger] p0[k]).0, p0[k].1) by {
            assert(p0[k] == p[k]);
        }
        assert forall|a: int, b: int| 0 <= a < b < p0.len() implies #[trigger] p0[a] != #[trigger] p0[b] by {
            assert(p0[a] == p[a] && p0[b] == p[b]);
        }
        assert forall|k: int| 0 <= k < p0.len() implies !d[dot_index(w, (#[trigger] p0[k]).0, p0[k].1)] by {
            assert(p0[k] == p[k]);
        }
        lemma_painted_count(d, w, h, p0);
        assert(in_grid(w, h, p[p.len() - 1].0, p[p.len() - 1].1));
        let qi = dot_index(w, q.0, q.1);
        lemma_dot_index(w, h, q.0, q.1);
        assert forall|k: int|
            0 <= k < p0.len() && in_grid(w, h, p0[k].0, p0[k].1) implies dot_index(
            w,
            p0[k].0,
            p0[k].1,
        ) != qi by {
            assert(p0[k] == p[k]);
            assert(p[k] != p[p.len() - 1]);
            if dot_index(w, p0[k].0, p0[k].1) == qi {
                lemma_dot_index_injective(w, h, p0[k].0, p0[k].1, q.0, q.1);
            }
        }
        lemma_painted_untouched(d, w, h, p0, qi);
        assert(!d[dot_index(w, p[p.len() - 1].0, p[p.len() - 1].1)]);
        lemma_count_lit_update(painted(d, w, h, p0), qi);
    }
}

proof fn lemma_count_lit_blank(n: nat)
    ensures
        count_lit(Seq::new(n, |i: int| false)) == 0,
    decreases n,
{
    if n > 0 {
        lemma_count_lit_blank((n - 1) as nat);
        assert(Seq::new(n, |i: int| false).drop_last() =~= Seq::new((n - 1) as nat, |i: int| false));
    }
}

/// A line between two dots of the grid, drawn into an empty grid, lights
/// one dot per step of its longer axis, both ends included.
pub proof fn lemma_line_dot_count(w: u16, h: u16, p: Seq<(int, int)>, x0: int, y0: int, x1: int, y1: int)
    requires
        in_grid(w, h, x0, y0),
        in_grid(w, h, x1, y1),
        line_path(p, x0, y0, x1, y1),
    ensures
        count_lit(painted(Seq::new(dot_total(w, h) as nat, |i: int| false), w, h, p)) == major(
            abs_int(x1 - x0),
            abs_int(y1 - y0),
        ) + 1,
{
    let ddx = abs_int(x1 - x0);
    let ddy = abs_int(y1 - y0);
    let blank = Seq::new(dot_total(w, h) as nat, |i: int| false);
    reveal(bresenham_dots);
    assert forall|k: int| 0 <= k < p.len() implies in_grid(w, h, (#[trigger] p[k]).0, p[k].1) by {
        lemma_bres_major(ddx, ddy, k as nat);
        assert(p[k] == bres_point(x0, y0, x1, y1, k as nat));
    }
    assert forall|a: int, b: int| 0 <= a < b < p.len() implies #[trigger] p[a] != #[trigger] p[b] by {
        lemma_bres_major(ddx, ddy, a as nat);
        lemma_bres_major(ddx, ddy, b as nat);
        assert(p[a] == bres_point(x0, y0, x1, y1, a as nat));
        assert(p[b] == bres_point(x0, y0, x1, y1, b as nat));
    }
    assert forall|k: int| 0 <= k < p.len() implies !blank[dot_index(w, (#[trigger] p[k]).0, p[k].1)] by {
        lemma_dot_index(w, h, p[k].0, p[k].1);
    }
    lemma_painted_count(blank, w, h, p);
    lemma_count_lit_blank(dot_total(w, h) as nat);
}

/// Stroke weight of a road class in dots: 2 for motorways, trunks,
/// primary and secondary roads, 1 for the rest.
pub fn stroke_weight(importance: &str) -> (r: u8)
    ensures
        r == if importance@ == "motorway"@ || importance@ == "trunk"@ || importance@
            == "primary"@ || importance@ == "secondary"@ {
            2u8
        } else {
            1u8
        },
{
    if crate::text::same_str(importance, "motorway") || crate::text::same_str(importance, "trunk")
        || crate::text::same_str(importance, "primary") || crate::text::same_str(
        importance,
        "secondary",
    ) {
        2
    } else {
        1
    }
}

// ─── Polylines ──────────────────────────────────────────────────────────

/// A projected point with room for the shifts a stroke takes (one dot
/// right, two dots down) before `i32` runs out.
pub open spec fn coord_ok(p: (i32, i32)) -> bool {
    p.0 < i32::MAX && p.1 < i32::MAX - 1
}

/// Point `p` moved down `dy` dots.
pub open spec fn shifted(p: (i32, i32), dy: int) -> (int, int) {
    (p.0 as int, p.1 + dy)
}

/// The dots one pass of a polyline lights, in order, over its first `n`
/// points moved down `dy`: each point, then the line from the one before
/// it (the `k`-th line is `ps[k]`).
pub open spec fn pass_points(pts: Seq<(i32, i32)>, dy: int, ps: Seq<Seq<(int, int)>>, n: int) -> Seq<(int, int)>
    decreases n,
{
    if n <= 0 {
        Seq::empty()
    } else {
        pass_points(pts, dy, ps, n - 1) + seq![shifted(pts[n - 1], dy)] + if n > 1 {
            ps[n - 2]
        } else {
            Seq::empty()
        }
    }
}

/// The dots `m` passes light, the pass `dy` moved down `dy` dots.
pub open spec fn stroke_points(pts: Seq<(i32, i32)>, m: int, paths: Seq<Seq<Seq<(int, int)>>>) -> Seq<(int, int)>
    decreases m,
{
    if m <= 0 {
        Seq::empty()
    } else {
        stroke_points(pts, m - 1, paths) + pass_points(pts, m - 1, paths[m - 1], pts.len() as int)
    }
}

/// `ps` holds the Bresenham lines between consecutive points moved down
/// `dy`.
pub open spec fn pass_paths_ok(pts: Seq<(i32, i32)>, dy: int, ps: Seq<Seq<(int, int)>>) -> bool {
    &&& ps.len() == pts.len() - 1
    &&& forall|k: int|
        0 <= k < ps.len() ==> line_path(
            #[trigger] ps[k],
            pts[k].0 as int,
            pts[k].1 + dy,
            pts[k + 1].0 as int,
            pts[k + 1].1 + dy,
        )
}

/// `paths` holds the lines of `m` passes.
pub open spec fn stroke_paths_ok(pts: Seq<(i32, i32)>, m: int, paths: Seq<Seq<Seq<(int, int)>>>) -> bool {
    &&& paths.len() == m
    &&& forall|dy: int| 0 <= dy < m ==> pass_paths_ok(pts, dy, #[trigger] paths[dy])
}

/// The stroke weight of a road class (see `stroke_weight`).
pub open spec fn weight_of(importance: Seq<char>) -> int {
    if importance == "motorway"@ || importance == "trunk"@ || importance == "primary"@ || importance
        == "secondary"@ {
        2
    } else {
        1
    }
}

pub(crate) proof fn lemma_painted_concat(d: Seq<bool>, w: u16, h: u16, p: Seq<(int, int)>, q: Seq<(int, int)>)
    ensures
        painted(d, w, h, p + q) == painted(painted(d, w, h, p), w, h, q),
    decreases q.len(),
{
    if q.len() == 0 {
        assert(p + q =~= p);
    } else {
        assert((p + q).drop_last() =~= p + q.drop_last());
        assert((p + q).last() == q.last());
        lemma_painted_concat(d, w, h, p, q.drop_last());
    }
}

proof fn lemma_pass_points_prefix(pts: Seq<(i32, i32)>, dy: int, ps: Seq<Seq<(int, int)>>, extra: Seq<(int, int)>, n: int)
    requires
        n - 1 <= ps.len(),
    ensures
        pass_points(pts, dy, ps.push(extra), n) == pass_points(pts, dy, ps, n),
    decreases n,
{
    if n > 0 {
        lemma_pass_points_prefix(pts, dy, ps, extra, n - 1);
        if n > 1 {
            assert(ps.push(extra)[n - 2] == ps[n - 2]);
        }
    }
}

proof fn lemma_stroke_points_prefix(pts: Seq<(i32, i32)>, m: int, paths: Seq<Seq<Seq<(int, int)>>>, extra: Seq<Seq<(int, int)>>)
    requires
        m <= paths.len(),
    ensures
        stroke_points(pts, m, paths.push(extra)) == stroke_points(pts, m, paths),
    decreases m,
{
    if m > 0 {
        lemma_stroke_points_prefix(pts, m - 1, paths, extra);
        assert(paths.push(extra)[m - 1] == paths[m - 1]);
    }
}

/// Draw a road's projected points into the grid: for each dot of its
/// stroke weight (see `stroke_weight`), a pass moved down that many dots
/// lights every point and the Bresenham line from the point before it.
/// A road of fewer than two points draws nothing.
pub fn draw_polyline(grid: &mut BrailleGrid, pts: &Vec<(i32, i32)>, importance: &str)
    requires
        old(grid).wf(),
        forall|k: int| 0 <= k < pts@.len() ==> coord_ok(#[trigger] pts@[k]),
    ensures
        final(grid).wf(),
        final(grid)@.w_chars == old(grid)@.w_chars,
        final(grid)@.h_chars == old(grid)@.h_chars,
        pts@.len() < 2 ==> final(grid)@.dots == old(grid)@.dots,
        pts@.len() >= 2 ==> exists|paths: Seq<Seq<Seq<(int, int)>>>|
            stroke_paths_ok(pts@, weight_of(importance@), paths) && final(grid)@.dots == painted(
                old(grid)@.dots,
                old(grid)@.w_chars,
                old(grid)@.h_chars,
                stroke_points(pts@, weight_of(importance@), paths),
            ),
{
    let weight = stroke_weight(importance);
    if pts.len() < 2 {
        return;
    }
    let ghost w = grid@.w_chars;
    let ghost h = grid@.h_chars;
    let ghost d0 = grid@.dots;
    let ghost mut paths: Seq<Seq<Seq<(int, int)>>> = Seq::empty();
    let n = pts.len();
    let mut dy: i32 = 0;
    while dy < weight as i32
        invariant
            grid.wf(),
            grid@.w_chars == w,
            grid@.h_chars == h,
            n == pts@.len() >= 2,
            forall|k: int| 0 <= k < pts@.len() ==> coord_ok(#[trigger] pts@[k]),
            weight == weight_of(importance@),
            0 <= dy <= weight,
            stroke_paths_ok(pts@, dy as int, paths),
            grid@.dots == painted(d0, w, h, stroke_points(pts@, dy as int, paths)),
        decreases weight - dy,
    {
        let ghost start = grid@.dots;
        let ghost mut ps: Seq<Seq<(int, int)>> = Seq::empty();
        let mut k: usize = 0;
        while k < n
            invariant
                grid.wf(),
                grid@.w_chars == w,
                grid@.h_chars == h,
                n == pts@.len() >= 2,
                forall|j: int| 0 <= j < pts@.len() ==> coord_ok(#[trigger] pts@[j]),
                0 <= dy <= 1,
                k <= n,
                ps.len() == if k == 0 {
                    0
                } else {
                    k - 1
                },
                forall|j: int|
                    0 <= j < ps.len() ==> line_path(
                        #[trigger] ps[j],
                        pts@[j].0 as int,
                        pts@[j].1 + dy,
                        pts@[j + 1].0 as int,
                        pts@[j + 1].1 + dy,
                    ),
                grid@.dots == painted(start, w, h, pass_points(pts@, dy as int, ps, k as int)),
            decreases n - k,
        {
            let (x, y) = pts[k];
            assert(coord_ok(pts@[k as int]));
            let ghost before = grid@.dots;
            grid.set_dot(x, y + dy);
            proof {
                let v = shifted(pts@[k as int], dy as int);
                assert(seq![v].drop_last() =~= Seq::<(int, int)>::empty());
                assert(painted(before, w, h, Seq::<(int, int)>::empty()) == before);
                assert(seq![v].last() == v);
                assert(grid@.dots == painted(before, w, h, seq![v]));
                lemma_painted_concat(start, w, h, pass_points(pts@, dy as int, ps, k as int), seq![v]);
            }
            if k > 0 {
                let (px, py) = pts[k - 1];
                assert(coord_ok(pts@[k - 1]));
                let ghost mid = grid@.dots;
                line(grid, px, py + dy, x, y + dy);
                proof {
                    let p = choose|p: Seq<(int, int)>|
                        line_path(p, px as int, (py + dy) as int, x as int, (y + dy) as int)
                            && grid@.dots == painted(mid, w, h, p);
                    let base = pass_points(pts@, dy as int, ps, k as int) + seq![shifted(pts@[k as int], dy as int)];
                    lemma_painted_concat(start, w, h, base, p);
                    lemma_pass_points_prefix(pts@, dy as int, ps, p, k as int);
                    ps = ps.push(p);
                    assert(pass_points(pts@, dy as int, ps, k + 1) =~= base + p);
                }
            } else {
                proof {
                    assert(pass_points(pts@, dy as int, ps, 1) =~= pass_points(pts@, dy as int, ps, 0) + seq![
                        shifted(pts@[0], dy as int),
                    ] + Seq::<(int, int)>::empty());
                }
            }
            k += 1;
        }
        proof {
            lemma_painted_concat(d0, w, h, stroke_points(pts@, dy as int, paths), pass_points(pts@, dy as int, ps, n as int));
            lemma_stroke_points_prefix(pts@, dy as int, paths, ps);
            let old_paths = paths;
            paths = old_paths.push(ps);
            assert(paths[dy as int] == ps);
            assert(stroke_points(pts@, dy + 1, paths) == stroke_points(pts@, dy as int, paths) + pass_points(
                pts@,
                dy as int,
                paths[dy as int],
                n as int,
            ));
            assert forall|e: int| 0 <= e < dy + 1 implies pass_paths_ok(pts@, e, #[trigger] paths[e]) by {
                if e < dy {
                    assert(paths[e] == old_paths[e]);
                }
            }
        }
        dy += 1;
    }
}

} // verus!
