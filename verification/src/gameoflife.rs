//! The toroidal grid and the step engine.
//!
//! `Universe` is the authoritative simulation state: a `width x height` grid
//! of cells in row-major order, the target interval between generations, and
//! the running flag.  Its mathematical view is `GridView`, over which every
//! contract is stated.

use vstd::arithmetic::div_mod::lemma_fundamental_div_mod_converse;
use vstd::prelude::*;
use vstd::string::StringExecFns;

verus! {

/// The binary state of one grid position.
#[derive(Clone, Copy, Debug, PartialEq, Eq, Structural)]
pub enum Cell {
    Dead,
    Alive,
}

/// The mathematical model of a `Universe`: plain integers, a boolean, and a
/// sequence of cells in row-major order.
#[verifier::ext_equal]
pub struct GridView {
    pub width: nat,
    pub height: nat,
    pub interval: nat,
    pub started: bool,
    pub cells: Seq<Cell>,
}

impl GridView {
    /// A grid is well formed when both dimensions are positive, the cell
    /// count matches the dimensions, and the cell count fits the index
    /// arithmetic of the engine.
    pub open spec fn wf(self) -> bool {
        &&& 1 <= self.width
        &&& 1 <= self.height
        &&& self.width * self.height <= u32::MAX
        &&& self.cells.len() == self.width * self.height
    }

    /// Row-major index of a coordinate pair.
    pub open spec fn idx_of(self, row: int, col: int) -> int {
        row * self.width + col
    }

    /// The cell stored at a coordinate pair.
    pub open spec fn cell(self, row: int, col: int) -> Cell {
        self.cells[self.idx_of(row, col)]
    }

    /// 1 when the neighbor at offset `(dr, dc)` from `(row, col)` is alive,
    /// else 0.  The neighbor coordinate wraps toroidally: each component is
    /// reduced modulo its dimension, so the row above the top row is the
    /// bottom row, and a cell may be its own neighbor when a dimension is 1
    /// or 2.
    pub open spec fn neighbor_contrib(self, row: int, col: int, dr: int, dc: int) -> int {
        if self.cell((row + dr) % (self.height as int), (col + dc) % (self.width as int)) is Alive {
            1
        } else {
            0
        }
    }

    /// The number of live cells among the eight toroidally wrapped neighbors
    /// of `(row, col)`, written with the same offsets the engine walks:
    /// `dimension - 1`, `0` and `1` in each direction, skipping `(0, 0)`.
    pub open spec fn neighbor_count(self, row: int, col: int) -> int {
        let up = (self.height - 1) as int;
        let left = (self.width - 1) as int;
        self.neighbor_contrib(row, col, up, left) + self.neighbor_contrib(row, col, up, 0)
            + self.neighbor_contrib(row, col, up, 1) + self.neighbor_contrib(row, col, 0, left)
            + self.neighbor_contrib(row, col, 0, 1) + self.neighbor_contrib(row, col, 1, left)
            + self.neighbor_contrib(row, col, 1, 0) + self.neighbor_contrib(row, col, 1, 1)
    }

    /// The grid after one generation: every cell steps simultaneously from
    /// the prior generation alone.
    pub open spec fn step(self) -> GridView {
        GridView {
            cells: Seq::new(
                self.cells.len(),
                |i: int|
                    next_cell(
                        self.cells[i],
                        self.neighbor_count(i / (self.width as int), i % (self.width as int)),
                    ),
            ),
            ..self
        }
    }

    /// The grid with every cell dead and everything else unchanged.
    pub open spec fn cleared(self) -> GridView {
        GridView { cells: Seq::new(self.cells.len(), |i: int| Cell::Dead), ..self }
    }

    /// Whether linear index `i` is named by one of the offsets.
    pub open spec fn offset_hits(self, offsets: Seq<(u32, u32)>, i: int) -> bool {
        exists|k: int|
            0 <= k < offsets.len() && self.idx_of(offsets[k].0 as int, offsets[k].1 as int) == i
    }

    /// The text of one row of the snapshot: one glyph per cell, closed by a
    /// newline.
    pub open spec fn row_text(self, row: int) -> Seq<char> {
        Seq::new(self.width, |c: int| glyph(self.cell(row, c))).push('\n')
    }

    /// The text of the first `rows` rows of the snapshot.
    pub open spec fn text_up_to(self, rows: int) -> Seq<char>
        decreases rows,
    {
        if rows <= 0 {
            Seq::empty()
        } else {
            self.text_up_to(rows - 1) + self.row_text(rows - 1)
        }
    }

    /// The textual snapshot of the whole grid: one line per row, one glyph
    /// per cell, and nothing else.
    pub open spec fn snapshot(self) -> Seq<char> {
        self.text_up_to(self.height as int)
    }

    /// The grid with every listed `(row, col)` offset set alive and every
    /// other cell unchanged.
    pub open spec fn stamped(self, offsets: Seq<(u32, u32)>) -> GridView {
        GridView {
            cells: Seq::new(
                self.cells.len(),
                |i: int|
                    if self.offset_hits(offsets, i) {
                        Cell::Alive
                    } else {
                        self.cells[i]
                    },
            ),
            ..self
        }
    }
}

/// The glyph a snapshot uses for one cell: a filled square for a live cell,
/// a hollow one for a dead cell.
pub open spec fn glyph(c: Cell) -> char {
    if c is Alive {
        '\u{25fc}'
    } else {
        '\u{25fb}'
    }
}

/// The transition rule of the game, as a function of the current state and
/// the live-neighbor count: a live cell survives exactly with two or three
/// live neighbors; a dead cell comes alive exactly with three; every other
/// cell is dead in the next generation.
pub open spec fn next_cell(current: Cell, neighbors: int) -> Cell {
    match current {
        Cell::Alive => if 2 <= neighbors <= 3 {
            Cell::Alive
        } else {
            Cell::Dead
        },
        Cell::Dead => if neighbors == 3 {
            Cell::Alive
        } else {
            Cell::Dead
        },
    }
}

/// A row-major index of an in-bounds coordinate lies below the cell count.
pub proof fn lemma_idx_in_bounds(width: int, height: int, row: int, col: int)
    requires
        1 <= width,
        1 <= height,
        0 <= row < height,
        0 <= col < width,
    ensures
        0 <= row * width + col < width * height,
{
    assert(0 <= row * width + col < width * height) by (nonlinear_arith)
        requires
            1 <= width,
            1 <= height,
            0 <= row < height,
            0 <= col < width,
    ;
}

/// The cell at linear index `i` of the default start pattern: alive exactly
/// when `i` is even or a multiple of 7.
pub open spec fn default_cell(i: int) -> Cell {
    if i % 2 == 0 || i % 7 == 0 {
        Cell::Alive
    } else {
        Cell::Dead
    }
}

/// The simulation state: grid dimensions, cells in row-major order, the
/// target milliseconds between generations, and the running flag.
#[derive(Debug)]
pub struct Universe {
    pub width: u32,
    pub height: u32,
    pub interval: u32,
    pub cells: Vec<Cell>,
    pub started: bool,
}

impl Default for Universe {
    /// The default configuration: a 64 x 64 grid, interval 50, paused, with
    /// the deterministic start pattern of `default_cell`.
    fn default() -> (u: Universe)
        ensures
            u@.wf(),
            u@.width == 64,
            u@.height == 64,
            u@.interval == 50,
            u@.started == false,
            u@.cells == Seq::new(4096, |i: int| default_cell(i)),
    {
        let mut cells: Vec<Cell> = Vec::new();
        let mut i: u32 = 0;
        while i < 4096
            invariant
                i <= 4096,
                cells@.len() == i,
                forall|j: int| 0 <= j < i ==> cells@[j] == default_cell(j),
            decreases 4096 - i,
        {
            if i % 2 == 0 || i % 7 == 0 {
                cells.push(Cell::Alive);
            } else {
                cells.push(Cell::Dead);
            }
            i += 1;
        }
        let u = Universe { width: 64, height: 64, interval: 50, cells, started: false };
        proof {
            assert(u@.cells =~= Seq::new(4096, |i: int| default_cell(i)));
        }
        u
    }
}

impl View for Universe {
    type V = GridView;

    open spec fn view(&self) -> GridView {
        GridView {
            width: self.width as nat,
            height: self.height as nat,
            interval: self.interval as nat,
            started: self.started,
            cells: self.cells@,
        }
    }
}

impl Universe {
    /// Build an all-dead grid from a configuration.  A zero dimension, or one
    /// whose cell count the index arithmetic cannot carry, is rejected.
    pub fn new(width: u32, height: u32, interval: u32, started: bool) -> (r: Result<
        Universe,
        crate::control::LifeError,
    >)
        ensures
            match r {
                Ok(u) => {
                    &&& 1 <= width
                    &&& 1 <= height
                    &&& width * height <= u32::MAX
                    &&& u@ == (GridView {
                        width: width as nat,
                        height: height as nat,
                        interval: interval as nat,
                        started,
                        cells: Seq::new((width * height) as nat, |i: int| Cell::Dead),
                    })
                    &&& u@.wf()
                },
                Err(e) => {
                    &&& e == crate::control::LifeError::ConfigurationInvalid
                    &&& (width == 0 || height == 0 || width * height > u32::MAX)
                },
            },
    {
        if width == 0 || height == 0 {
            return Err(crate::control::LifeError::ConfigurationInvalid);
        }
        proof {
            assert((width as u64) * (height as u64) <= (u32::MAX as u64) * (u32::MAX as u64))
                by (nonlinear_arith)
                requires
                    width <= u32::MAX as u64,
                    height <= u32::MAX as u64,
            ;
        }
        let count = (width as u64) * (height as u64);
        if count > u32::MAX as u64 {
            return Err(crate::control::LifeError::ConfigurationInvalid);
        }
        let n = count as usize;
        let mut cells: Vec<Cell> = Vec::new();
        let mut i: usize = 0;
        while i < n
            invariant
                i <= n,
                cells@.len() == i,
                forall|j: int| 0 <= j < i ==> cells@[j] is Dead,
            decreases n - i,
        {
            cells.push(Cell::Dead);
            i += 1;
        }
        let u = Universe { width, height, interval, cells, started };
        proof {
            assert(u@.cells =~= Seq::new((width * height) as nat, |i: int| Cell::Dead));
            assert(u@ =~= (GridView {
                width: width as nat,
                height: height as nat,
                interval: interval as nat,
                started,
                cells: Seq::new((width * height) as nat, |i: int| Cell::Dead),
            }));
        }
        Ok(u)
    }

    /// Whether the grid is well formed; the runtime mirror of `GridView::wf`.
    pub fn is_wf(&self) -> (b: bool)
        ensures
            b == self@.wf(),
    {
        let w = self.width as u64;
        let h = self.height as u64;
        proof {
            assert(w * h <= (u32::MAX as u64) * (u32::MAX as u64)) by (nonlinear_arith)
                requires
                    w <= u32::MAX as u64,
                    h <= u32::MAX as u64,
            ;
        }
        self.width >= 1 && self.height >= 1 && w * h <= u32::MAX as u64 && self.cells.len() as u64
            == w * h
    }

    /// Row-major index of an in-bounds coordinate.
    pub fn get_index(&self, row: u32, col: u32) -> (idx: usize)
        requires
            self@.wf(),
            row < self.height,
            col < self.width,
        ensures
            idx == self@.idx_of(row as int, col as int),
            idx < self.cells.len(),
    {
        proof {
            lemma_idx_in_bounds(self.width as int, self.height as int, row as int, col as int);
        }
        (row * self.width + col) as usize
    }

    /// 1 when the toroidally wrapped neighbor at offset `(dr, dc)` is alive,
    /// else 0.
    fn neighbor_bit(&self, row: u32, col: u32, dr: u32, dc: u32) -> (b: u8)
        requires
            self@.wf(),
            row < self.height,
            col < self.width,
        ensures
            b == self@.neighbor_contrib(row as int, col as int, dr as int, dc as int),
            b <= 1,
    {
        let nr = ((row as u64 + dr as u64) % self.height as u64) as u32;
        let nc = ((col as u64 + dc as u64) % self.width as u64) as u32;
        let idx = self.get_index(nr, nc);
        if self.cells[idx] == Cell::Alive {
            1
        } else {
            0
        }
    }

    /// The number of live cells among the eight toroidally wrapped neighbors
    /// of `(row, col)`.
    pub fn live_neighbor_count(&self, row: u32, column: u32) -> (count: u8)
        requires
            self@.wf(),
            row < self.height,
            column < self.width,
        ensures
            count == self@.neighbor_count(row as int, column as int),
            count <= 8,
    {
        let up = self.height - 1;
        let left = self.width - 1;
        let mut count: u8 = self.neighbor_bit(row, column, up, left);
        count += self.neighbor_bit(row, column, up, 0);
        count += self.neighbor_bit(row, column, up, 1);
        count += self.neighbor_bit(row, column, 0, left);
        count += self.neighbor_bit(row, column, 0, 1);
        count += self.neighbor_bit(row, column, 1, left);
        count += self.neighbor_bit(row, column, 1, 0);
        count += self.neighbor_bit(row, column, 1, 1);
        count
    }

    /// Advance the grid by one generation.  Every cell's next state is
    /// computed from a read-only view of the current generation, so no cell
    /// sees an already-updated neighbor.
    pub fn tick(&mut self)
        requires
            old(self)@.wf(),
        ensures
            final(self)@ == old(self)@.step(),
            final(self)@.wf(),
    {
        let ghost g = old(self)@;
        let w = self.width;
        let h = self.height;
        let mut next: Vec<Cell> = Vec::new();
        let mut row: u32 = 0;
        while row < h
            invariant
                *self == *old(self),
                g == self@,
                self@.wf(),
                w == self.width,
                h == self.height,
                row <= h,
                next@.len() == row * w,
                forall|i: int| 0 <= i < next@.len() ==> next@[i] == g.step().cells[i],
            decreases h - row,
        {
            let mut col: u32 = 0;
            while col < w
                invariant
                    *self == *old(self),
                    g == self@,
                    self@.wf(),
                    w == self.width,
                    h == self.height,
                    row < h,
                    col <= w,
                    next@.len() == row * w + col,
                    forall|i: int| 0 <= i < next@.len() ==> next@[i] == g.step().cells[i],
                decreases w - col,
            {
                let idx = self.get_index(row, col);
                let cell = self.cells[idx];
                let neighbors = self.live_neighbor_count(row, col);
                let next_c = match (cell, neighbors) {
                    (Cell::Alive, x) if x < 2 => Cell::Dead,
                    (Cell::Alive, 2) | (Cell::Alive, 3) => Cell::Alive,
                    (Cell::Alive, x) if x > 3 => Cell::Dead,
                    (Cell::Dead, 3) => Cell::Alive,
                    (c, _) => c,
                };
                proof {
                    let i = row * (w as int) + col;
                    lemma_fundamental_div_mod_converse(i, w as int, row as int, col as int);
                    lemma_idx_in_bounds(w as int, h as int, row as int, col as int);
                    assert(next_c == next_cell(g.cells[i], g.neighbor_count(row as int, col as int)));
                    assert(g.step().cells[i] == next_c);
                }
                next.push(next_c);
                col += 1;
            }
            proof {
                assert((row + 1) * w == row * w + w) by (nonlinear_arith);
            }
            row += 1;
        }
        self.cells = next;
        proof {
            assert(h * w == w * h) by (nonlinear_arith);
            assert(self@.cells =~= g.step().cells);
            assert(self@ =~= g.step());
        }
    }

    /// Set every listed `(row, col)` position alive, touching no other cell.
    pub fn set_cells(&mut self, cells: &[(u32, u32)])
        requires
            old(self)@.wf(),
            forall|k: int|
                0 <= k < cells@.len() ==> ((#[trigger] cells@[k]).0 < old(self).height
                    && cells@[k].1 < old(self).width),
        ensures
            final(self)@ == old(self)@.stamped(cells@),
            final(self)@.wf(),
    {
        let ghost g = old(self)@;
        let n = cells.len();
        let mut k: usize = 0;
        while k < n
            invariant
                g.wf(),
                self@.wf(),
                n == cells@.len(),
                k <= n,
                forall|j: int|
                    0 <= j < cells@.len() ==> ((#[trigger] cells@[j]).0 < g.height && cells@[j].1
                        < g.width),
                self@ == g.stamped(cells@.subrange(0, k as int)),
            decreases n - k,
        {
            let (row, col) = cells[k];
            let idx = self.get_index(row, col);
            self.cells.set(idx, Cell::Alive);
            proof {
                let prefix = cells@.subrange(0, k as int);
                let grown = cells@.subrange(0, k + 1 as int);
                let before = g.stamped(prefix);
                let target = g.stamped(grown);
                assert forall|i: int| 0 <= i < g.cells.len() implies before.cells.update(
                    idx as int,
                    Cell::Alive,
                )[i] == target.cells[i] by {
                    if i == idx {
                        assert(grown[k as int] == cells@[k as int]);
                        assert(g.offset_hits(grown, i));
                    } else {
                        if g.offset_hits(grown, i) {
                            let w = choose|j: int|
                                0 <= j < grown.len() && g.idx_of(
                                    grown[j].0 as int,
                                    grown[j].1 as int,
                                ) == i;
                            assert(w < k);
                            assert(prefix[w] == grown[w]);
                            assert(g.offset_hits(prefix, i));
                        }
                        if g.offset_hits(prefix, i) {
                            let w = choose|j: int|
                                0 <= j < prefix.len() && g.idx_of(
                                    prefix[j].0 as int,
                                    prefix[j].1 as int,
                                ) == i;
                            assert(grown[w] == prefix[w]);
                            assert(g.offset_hits(grown, i));
                        }
                    }
                }
                assert(self@.cells =~= target.cells);
                assert(self@ =~= target);
            }
            k += 1;
        }
        proof {
            assert(cells@.subrange(0, n as int) =~= cells@);
        }
    }

    /// Kill every cell; dimensions, interval and the running flag stay as
    /// they are.
    pub fn clear(&mut self)
        requires
            old(self)@.wf(),
        ensures
            final(self)@ == old(self)@.cleared(),
            final(self)@.wf(),
    {
        let ghost g = old(self)@;
        let n = self.cells.len();
        let mut i: usize = 0;
        while i < n
            invariant
                g.wf(),
                n == self.cells.len(),
                i <= n,
                self@.width == g.width,
                self@.height == g.height,
                self@.interval == g.interval,
                self@.started == g.started,
                forall|j: int| 0 <= j < i ==> self.cells@[j] is Dead,
            decreases n - i,
        {
            self.cells.set(i, Cell::Dead);
            i += 1;
        }
        proof {
            assert(self@.cells =~= g.cleared().cells);
            assert(self@ =~= g.cleared());
        }
    }

    /// Render the textual snapshot of the grid: `height` lines of `width`
    /// glyphs each.
    pub fn render(&self) -> (s: String)
        requires
            self@.wf(),
        ensures
            s@ == self@.snapshot(),
    {
        let mut out = String::new();
        let mut row: u32 = 0;
        while row < self.height
            invariant
                self@.wf(),
                row <= self.height,
                out@ == self@.text_up_to(row as int),
            decreases self.height - row,
        {
            let mut col: u32 = 0;
            while col < self.width
                invariant
                    self@.wf(),
                    row < self.height,
                    col <= self.width,
                    out@ == self@.text_up_to(row as int) + Seq::new(
                        col as nat,
                        |c: int| glyph(self@.cell(row as int, c)),
                    ),
                decreases self.width - col,
            {
                let idx = self.get_index(row, col);
                if self.cells[idx] == Cell::Alive {
                    out.append("\u{25fc}");
                } else {
                    out.append("\u{25fb}");
                }
                proof {
                    reveal_strlit("\u{25fc}");
                    reveal_strlit("\u{25fb}");
                    assert(out@ =~= self@.text_up_to(row as int) + Seq::new(
                        (col + 1) as nat,
                        |c: int| glyph(self@.cell(row as int, c)),
                    ));
                }
                col += 1;
            }
            out.append("\n");
            proof {
                reveal_strlit("\n");
                assert(out@ =~= self@.text_up_to(row as int + 1));
            }
            row += 1;
        }
        out
    }
}

} // verus!
