use crate::palette::{pallet, pallet_spec, rgb565_raw, rgb565_spec, MAX_LEVEL};
use vstd::prelude::*;

verus! {

/// Width of the grid that `Default` builds.
pub const FIRE_WIDTH: usize = 128;

/// Height of the grid that `Default` builds.
pub const FIRE_HEIGHT: usize = 96;

/// A row-major grid of `w * h` intensity levels whose levels never exceed
/// `MAX_LEVEL` and whose bottom row (the fuel row) is at `MAX_LEVEL`.
pub open spec fn grid_ok(g: Seq<u8>, w: nat, h: nat) -> bool {
    &&& w >= 1
    &&& h >= 1
    &&& g.len() == w * h
    &&& forall|i: int| 0 <= i < g.len() ==> g[i] <= MAX_LEVEL
    &&& forall|i: int| (h - 1) * w <= i < g.len() ==> g[i] == MAX_LEVEL
}

/// The drift index taken from a random draw: its two low bits.
pub open spec fn drift_index(draw: u8) -> u8 {
    draw & 3
}

/// Where a hot cell at linear index `src` lands: one row up, shifted horizontally
/// by `1 - r`; a destination before the start of the grid saturates to index 0.
pub open spec fn destination(src: int, r: int, w: int) -> int {
    if src + 1 - r - w >= 0 {
        src + 1 - r - w
    } else {
        0
    }
}

/// One cell of the decay step. The state is the grid and the number of random
/// draws consumed so far; a cold cell consumes none.
pub open spec fn cell_step(s: (Seq<u8>, nat), w: nat, x: nat, y: nat, draws: Seq<u8>) -> (
    Seq<u8>,
    nat,
) {
    let g = s.0;
    let k = s.1;
    let src = y * w + x;
    let pixel = g[src as int];
    if pixel == 0 {
        (g.update(src - w, 0), k)
    } else {
        let r = drift_index(draws[k as int]);
        (g.update(destination(src as int, r as int, w as int), (pixel - (r & 1)) as u8), k + 1)
    }
}

/// Rows `1..y` of column `x` in the order of the decay step: row 1 first, then
/// downward.
pub open spec fn column_steps(s: (Seq<u8>, nat), w: nat, x: nat, y: nat, draws: Seq<u8>) -> (
    Seq<u8>,
    nat,
)
    decreases y,
{
    if y <= 1 {
        s
    } else {
        cell_step(column_steps(s, w, x, (y - 1) as nat, draws), w, x, (y - 1) as nat, draws)
    }
}

/// Columns `0..x` of the decay step, each column in full.
pub open spec fn grid_steps(s: (Seq<u8>, nat), w: nat, h: nat, x: nat, draws: Seq<u8>) -> (
    Seq<u8>,
    nat,
)
    decreases x,
{
    if x == 0 {
        s
    } else {
        column_steps(grid_steps(s, w, h, (x - 1) as nat, draws), w, (x - 1) as nat, h, draws)
    }
}

/// The grid after one decay step over every column, taking random draws in order
/// from the start of `draws`.
pub open spec fn updated(g: Seq<u8>, w: nat, h: nat, draws: Seq<u8>) -> Seq<u8> {
    grid_steps((g, 0), w, h, w, draws).0
}

/// The RGBA bytes of a grid: four bytes per cell, in the grid's order.
pub open spec fn rendered(cells: Seq<u8>) -> Seq<u8> {
    Seq::new(cells.len() * 4, |j: int| pallet_spec(cells[j / 4])[j % 4])
}

/// The RGB565 color of an intensity level.
pub open spec fn pixel_color(level: u8) -> u16 {
    let c = pallet_spec(level);
    rgb565_spec(c[0], c[1], c[2])
}

proof fn lemma_cell_bounds(w: nat, h: nat, x: nat, y: nat)
    requires
        x < w,
        1 <= y < h,
    ensures
        w <= y * w + x,
        y * w + x < w * h,
        y * w + x - w == (y - 1) * w + x,
        (y - 1) * w + x < (h - 1) * w,
        (h - 1) * w + w == w * h,
{
    assert((y + 1) * w <= h * w) by (nonlinear_arith)
        requires
            y + 1 <= h,
    ;
    assert(y * w >= w) by (nonlinear_arith)
        requires
            y >= 1,
    ;
    assert((y - 1) * w + w == y * w) by (nonlinear_arith);
    assert(y * w <= (h - 1) * w) by (nonlinear_arith)
        requires
            y <= h - 1,
    ;
    assert((h - 1) * w + w == w * h) by (nonlinear_arith);
}

proof fn lemma_cell_step_keeps_grid(s: (Seq<u8>, nat), w: nat, h: nat, x: nat, y: nat, draws: Seq<u8>)
    requires
        grid_ok(s.0, w, h),
        x < w,
        1 <= y < h,
    ensures
        grid_ok(cell_step(s, w, x, y, draws).0, w, h),
{
    lemma_cell_bounds(w, h, x, y);
    let g = s.0;
    let src = y * w + x;
    if g[src as int] != 0 {
        let d = draws[s.1 as int];
        let r = drift_index(d);
        assert(r <= 3 && (r & 1) <= 1 && (r == 0 ==> (r & 1) == 0)) by (bit_vector)
            requires
                r == d & 3,
        ;
    }
}

proof fn lemma_column_keeps_grid(s: (Seq<u8>, nat), w: nat, h: nat, x: nat, y: nat, draws: Seq<u8>)
    requires
        grid_ok(s.0, w, h),
        x < w,
        y <= h,
    ensures
        grid_ok(column_steps(s, w, x, y, draws).0, w, h),
    decreases y,
{
    if y > 1 {
        lemma_column_keeps_grid(s, w, h, x, (y - 1) as nat, draws);
        lemma_cell_step_keeps_grid(
            column_steps(s, w, x, (y - 1) as nat, draws),
            w,
            h,
            x,
            (y - 1) as nat,
            draws,
        );
    }
}

proof fn lemma_columns_keep_grid(s: (Seq<u8>, nat), w: nat, h: nat, x: nat, draws: Seq<u8>)
    requires
        grid_ok(s.0, w, h),
        x <= w,
    ensures
        grid_ok(grid_steps(s, w, h, x, draws).0, w, h),
    decreases x,
{
    if x > 0 {
        lemma_columns_keep_grid(s, w, h, (x - 1) as nat, draws);
        lemma_column_keeps_grid(grid_steps(s, w, h, (x - 1) as nat, draws), w, h, (x - 1) as nat, h, draws);
    }
}

/// A decay step keeps a well-formed grid well-formed: every level stays within
/// `0..=MAX_LEVEL` and the fuel row stays at `MAX_LEVEL`, whatever the draws.
/// By induction this holds after any number of steps.
pub proof fn lemma_update_keeps_levels(g: Seq<u8>, w: nat, h: nat, draws: Seq<u8>)
    requires
        grid_ok(g, w, h),
    ensures
        grid_ok(updated(g, w, h, draws), w, h),
{
    lemma_columns_keep_grid((g, 0), w, h, w, draws);
}

/// A cold cell only cools the cell directly above it to 0, and takes no draw.
pub proof fn lemma_cold_cell_propagates_zero(
    g: Seq<u8>,
    k: nat,
    w: nat,
    h: nat,
    x: nat,
    y: nat,
    draws: Seq<u8>,
)
    requires
        g.len() == w * h,
        x < w,
        1 <= y < h,
        g[(y * w + x) as int] == 0,
    ensures
        cell_step((g, k), w, x, y, draws) == (g.update((y - 1) * w + x, 0), k),
{
    lemma_cell_bounds(w, h, x, y);
}

proof fn lemma_cold_column(g: Seq<u8>, k: nat, w: nat, h: nat, x: nat, y: nat, draws: Seq<u8>)
    requires
        g.len() == w * h,
        forall|i: int| 0 <= i < g.len() ==> g[i] == 0,
        x < w,
        y <= h,
    ensures
        column_steps((g, k), w, x, y, draws) == (g, k),
    decreases y,
{
    if y > 1 {
        let y1 = (y - 1) as nat;
        lemma_cold_column(g, k, w, h, x, y1, draws);
        lemma_cell_bounds(w, h, x, y1);
        assert(g.update(y1 * w + x - w, 0) =~= g);
    }
}

proof fn lemma_cold_columns(g: Seq<u8>, w: nat, h: nat, x: nat, draws: Seq<u8>)
    requires
        g.len() == w * h,
        forall|i: int| 0 <= i < g.len() ==> g[i] == 0,
        x <= w,
    ensures
        grid_steps((g, 0), w, h, x, draws) == (g, 0nat),
    decreases x,
{
    if x > 0 {
        lemma_cold_columns(g, w, h, (x - 1) as nat, draws);
        lemma_cold_column(g, 0, w, h, (x - 1) as nat, h, draws);
    }
}

/// A grid that is cold everywhere stays cold: a decay step never reignites a cell.
pub proof fn lemma_cold_grid_stays_cold(g: Seq<u8>, w: nat, h: nat, draws: Seq<u8>)
    requires
        g.len() == w * h,
        forall|i: int| 0 <= i < g.len() ==> g[i] == 0,
    ensures
        updated(g, w, h, draws) == g,
{
    lemma_cold_columns(g, w, h, w, draws);
}

/// A grid at one level throughout renders as that level's color repeated for
/// every cell: `07 07 07 FF` for a cold grid, `FF FF FF FF` for a grid at
/// `MAX_LEVEL`.
pub proof fn lemma_uniform_grid_renders_uniform(cells: Seq<u8>, level: u8)
    requires
        forall|i: int| 0 <= i < cells.len() ==> cells[i] == level,
    ensures
        rendered(cells).len() == cells.len() * 4,
        forall|j: int|
            0 <= j < rendered(cells).len() ==> rendered(cells)[j] == pallet_spec(level)[j % 4],
        level == 0 ==> forall|j: int|
            0 <= j < rendered(cells).len() ==> rendered(cells)[j] == seq![0x07u8, 0x07, 0x07, 0xFF][j
                % 4],
        level == MAX_LEVEL ==> forall|j: int|
            0 <= j < rendered(cells).len() ==> rendered(cells)[j] == 0xFF,
{
    assert forall|j: int| 0 <= j < rendered(cells).len() implies rendered(cells)[j] == pallet_spec(
        level,
    )[j % 4] by {
        assert(0 <= j / 4 < cells.len());
    }
}

/// Why a frame could not be drawn.
#[derive(Debug, Clone, Copy, PartialEq, Eq)]
pub enum DrawError {
    /// The frame does not hold exactly four bytes per cell.
    LengthMismatch { expected: usize, actual: usize },
}

/// A cell as a point of a drawing surface: its column, its row, and its color as
/// a 16-bit RGB565 value.
#[derive(Debug, Clone, Copy, PartialEq, Eq)]
pub struct FirePixel {
    pub x: usize,
    pub y: usize,
    pub color: u16,
}

/// The fire: a `width * height` grid of intensity levels stored row by row, top
/// row first. The bottom row is the fuel row.
pub struct DoomFire {
    width: usize,
    height: usize,
    fire_pixels: Vec<u8>,
}

impl DoomFire {
    /// The number of columns.
    pub closed spec fn spec_width(&self) -> nat {
        self.width as nat
    }

    /// The number of rows.
    pub closed spec fn spec_height(&self) -> nat {
        self.height as nat
    }

    /// The intensity levels, row-major: cell `(x, y)` is at `y * width + x`.
    pub closed spec fn cells(&self) -> Seq<u8> {
        self.fire_pixels@
    }

    /// The grid is well formed, and its RGBA rendering fits in memory.
    pub open spec fn wf(&self) -> bool {
        &&& grid_ok(self.cells(), self.spec_width(), self.spec_height())
        &&& self.spec_width() * self.spec_height() * 4 <= usize::MAX
    }

    /// A grid with every cell cold but the bottom row, which is at `MAX_LEVEL`.
    pub fn new(width: usize, height: usize) -> (r: Self)
        requires
            width >= 1,
            height >= 1,
            width * height * 4 <= usize::MAX,
        ensures
            r.wf(),
            r.spec_width() == width,
            r.spec_height() == height,
            forall|i: int|
                0 <= i < r.cells().len() ==> r.cells()[i] == if i >= (height - 1) * width {
                    MAX_LEVEL
                } else {
                    0
                },
    {
        assert(width * height <= width * height * 4) by (nonlinear_arith);
        assert((height - 1) * width <= width * height) by (nonlinear_arith)
            requires
                height >= 1,
        ;
        let n = width * height;
        let fuel_start = (height - 1) * width;
        let mut fire_pixels: Vec<u8> = Vec::new();
        while fire_pixels.len() < n
            invariant
                fire_pixels.len() <= n,
                forall|i: int|
                    0 <= i < fire_pixels.len() ==> fire_pixels[i] == if i >= fuel_start {
                        MAX_LEVEL
                    } else {
                        0
                    },
            decreases n - fire_pixels.len(),
        {
            if fire_pixels.len() >= fuel_start {
                fire_pixels.push(MAX_LEVEL);
            } else {
                fire_pixels.push(0);
            }
        }
        DoomFire { width, height, fire_pixels }
    }

    /// Advances the fire by one decay step. Column by column, and within a column
    /// from row 1 down to the bottom row, each cell heats the row above it: a cold cell
    /// cools the cell directly above to 0; a hot cell takes the next draw, keeps
    /// its two low bits `r`, and writes its level less `r & 1` one row up, shifted
    /// horizontally by `1 - r`. `draws` holds at least one draw per cell outside
    /// the top row.
    pub fn update(&mut self, draws: &[u8])
        requires
            old(self).wf(),
            draws@.len() >= old(self).spec_width() * (old(self).spec_height() - 1),
        ensures
            final(self).wf(),
            final(self).spec_width() == old(self).spec_width(),
            final(self).spec_height() == old(self).spec_height(),
            final(self).cells() == updated(
                old(self).cells(),
                old(self).spec_width(),
                old(self).spec_height(),
                draws@,
            ),
            old(self).spec_height() == 1 ==> final(self).cells() == old(self).cells(),
    {
        let w = self.width;
        let h = self.height;
        let ghost g0 = self.fire_pixels@;
        let mut k: usize = 0;
        let mut x: usize = 0;
        while x < w
            invariant
                self.width == w,
                self.height == h,
                grid_ok(g0, w as nat, h as nat),
                w * h * 4 <= usize::MAX,
                draws@.len() >= w * (h - 1),
                x <= w,
                self.fire_pixels@.len() == w * h,
                (self.fire_pixels@, k as nat) == grid_steps((g0, 0), w as nat, h as nat, x as nat, draws@),
                k <= x * (h - 1),
                h == 1 ==> self.fire_pixels@ == g0,
            decreases w - x,
        {
            let ghost col_start = (self.fire_pixels@, k as nat);
            let mut y: usize = 1;
            while y < h
                invariant
                    self.width == w,
                    self.height == h,
                    grid_ok(g0, w as nat, h as nat),
                    w * h * 4 <= usize::MAX,
                    draws@.len() >= w * (h - 1),
                    x < w,
                    1 <= y <= h,
                    self.fire_pixels@.len() == w * h,
                    col_start == grid_steps((g0, 0), w as nat, h as nat, x as nat, draws@),
                    (self.fire_pixels@, k as nat) == column_steps(col_start, w as nat, x as nat, y as nat, draws@),
                    k <= x * (h - 1) + (y - 1),
                    h == 1 ==> self.fire_pixels@ == g0,
                decreases h - y,
            {
                proof {
                    lemma_cell_bounds(w as nat, h as nat, x as nat, y as nat);
                    assert(w * h <= w * h * 4) by (nonlinear_arith);
                    assert(x * (h - 1) + (y - 1) < w * (h - 1)) by (nonlinear_arith)
                        requires
                            x < w,
                            y < h,
                    ;
                }
                let src = y * w + x;
                let pixel = self.fire_pixels[src];
                if pixel == 0 {
                    self.fire_pixels.set(src - w, 0);
                } else {
                    let draw = draws[k];
                    let rand_idx = draw & 3;
                    let decay = rand_idx & 1;
                    assert(rand_idx <= 3 && decay <= 1) by (bit_vector)
                        requires
                            rand_idx == draw & 3,
                            decay == rand_idx & 1,
                    ;
                    let dst = if src + 1 >= rand_idx as usize + w {
                        src + 1 - rand_idx as usize - w
                    } else {
                        0
                    };
                    self.fire_pixels.set(dst, pixel - decay);
                    k = k + 1;
                }
                y = y + 1;
            }
            proof {
                assert(x * (h - 1) + (h - 1) == (x + 1) * (h - 1)) by (nonlinear_arith);
            }
            x = x + 1;
        }
        proof {
            lemma_update_keeps_levels(g0, w as nat, h as nat, draws@);
        }
    }

    /// Writes the grid into `frame` as RGBA bytes, four per cell in the grid's
    /// order. A frame of any other length than `width * height * 4` is left as it
    /// is and the length mismatch is reported.
    pub fn draw_to_byte_slice(&self, frame: &mut [u8]) -> (r: Result<(), DrawError>)
        requires
            self.wf(),
        ensures
            old(frame)@.len() == self.cells().len() * 4 ==> r is Ok && final(frame)@ == rendered(
                self.cells(),
            ),
            old(frame)@.len() != self.cells().len() * 4 ==> r == Err::<(), DrawError>(
                DrawError::LengthMismatch {
                    expected: (self.cells().len() * 4) as usize,
                    actual: old(frame)@.len() as usize,
                },
            ) && final(frame)@ == old(frame)@,
    {
        let n = self.fire_pixels.len();
        assert(n * 4 <= usize::MAX) by (nonlinear_arith)
            requires
                n == self.spec_width() * self.spec_height(),
                self.spec_width() * self.spec_height() * 4 <= usize::MAX,
        ;
        if frame.len() != n * 4 {
            return Err(DrawError::LengthMismatch { expected: n * 4, actual: frame.len() });
        }
        let ghost cells = self.cells();
        let mut i: usize = 0;
        while i < n
            invariant
                self.wf(),
                cells == self.cells(),
                n == cells.len(),
                i <= n,
                frame@.len() == n * 4,
                forall|j: int| 0 <= j < i * 4 ==> frame@[j] == rendered(cells)[j],
            decreases n - i,
        {
            let color = pallet(self.fire_pixels[i]);
            let b = i * 4;
            frame[b] = color[0];
            frame[b + 1] = color[1];
            frame[b + 2] = color[2];
            frame[b + 3] = color[3];
            assert forall|j: int| 0 <= j < (i + 1) * 4 implies frame@[j] == rendered(cells)[j] by {
                if j >= i * 4 {
                    assert(j / 4 == i && j % 4 == j - i * 4);
                }
            }
            i = i + 1;
        }
        assert(frame@ =~= rendered(cells));
        Ok(())
    }

    /// The cells as points of a drawing surface, row by row: cell `i` stands at
    /// column `i % width` and row `i / width`, in the RGB565 form of its color.
    pub fn pixels(&self) -> (r: Vec<FirePixel>)
        requires
            self.wf(),
        ensures
            r@.len() == self.cells().len(),
            forall|i: int|
                0 <= i < r@.len() ==> r@[i] == (FirePixel {
                    x: (i % self.spec_width() as int) as usize,
                    y: (i / self.spec_width() as int) as usize,
                    color: pixel_color(self.cells()[i]),
                }),
    {
        let n = self.fire_pixels.len();
        let w = self.width;
        let mut r: Vec<FirePixel> = Vec::new();
        while r.len() < n
            invariant
                self.wf(),
                n == self.cells().len(),
                w == self.spec_width(),
                r.len() <= n,
                forall|i: int|
                    0 <= i < r@.len() ==> r@[i] == (FirePixel {
                        x: (i % w as int) as usize,
                        y: (i / w as int) as usize,
                        color: pixel_color(self.cells()[i]),
                    }),
            decreases n - r.len(),
        {
            let i = r.len();
            let c = pallet(self.fire_pixels[i]);
            let color = rgb565_raw(c[0], c[1], c[2]);
            r.push(FirePixel { x: i % w, y: i / w, color });
        }
        r
    }

    /// The number of columns.
    pub fn width(&self) -> (r: usize)
        ensures
            r == self.spec_width(),
    {
        self.width
    }

    /// The number of rows.
    pub fn height(&self) -> (r: usize)
        ensures
            r == self.spec_height(),
    {
        self.height
    }

    /// The intensity levels, row-major.
    pub fn levels(&self) -> (r: &[u8])
        ensures
            r@ == self.cells(),
    {
        self.fire_pixels.as_slice()
    }
}

impl Default for DoomFire {
    /// A `FIRE_WIDTH` by `FIRE_HEIGHT` grid, as `new` builds it.
    fn default() -> (r: Self)
        ensures
            r.wf(),
            r.spec_width() == FIRE_WIDTH,
            r.spec_height() == FIRE_HEIGHT,
            forall|i: int|
                0 <= i < r.cells().len() ==> r.cells()[i] == if i >= (FIRE_HEIGHT - 1) * FIRE_WIDTH {
                    MAX_LEVEL
                } else {
                    0
                },
    {
        DoomFire::new(FIRE_WIDTH, FIRE_HEIGHT)
    }
}

} // verus!
