//! The grid engine: a rectangular toroidal cell grid stored one bit per
//! cell, with the generation transition and the grid mutation operations.

use crate::bits::{
    bit_seq, fbs_as_slice, fbs_clear, fbs_clone, fbs_contains, fbs_set, fbs_with_capacity,
};
use crate::model::{
    cell_at, cell_listed, cleared, flat, glider_stamped, lemma_flat_div_mod, lemma_flat_in_range,
    names_cell, neighbor_count, next_gen, render_char, rendered, step_cell, toggled, wrapped_flat,
    GridView,
};
use fixedbitset::FixedBitSet;
use vstd::arithmetic::div_mod::lemma_mod_add_multiples_vanish;
use vstd::prelude::*;
use vstd::string::StringExecFns;

verus! {

/// The state of one cell.
#[derive(Clone, Copy, Debug, PartialEq, Eq)]
pub enum Cell {
    Dead,
    Alive,
}

/// A toroidal Game of Life grid: `width * height` cells, row-major, one
/// bit per cell.
pub struct Universe {
    width: u32,
    height: u32,
    cells: FixedBitSet,
}

impl View for Universe {
    type V = GridView;

    closed spec fn view(&self) -> GridView {
        GridView {
            width: self.width as nat,
            height: self.height as nat,
            cells: bit_seq(self.cells),
        }
    }
}

impl Universe {
    /// The representation invariant: one bit per cell, and the flat index
    /// arithmetic fits in a `u32`.
    pub open spec fn wf(&self) -> bool {
        self@.wf()
    }

    /// Flat row-major index of an in-range coordinate pair. No wrapping:
    /// the caller must already have range-checked or wrapped.
    fn get_index(&self, row: u32, column: u32) -> (idx: usize)
        requires
            self.wf(),
            row < self@.height,
            column < self@.width,
        ensures
            idx == flat(self@.width as int, row as int, column as int),
            idx < self@.cells.len(),
    {
        proof {
            lemma_flat_in_range(
                self@.width as int,
                self@.height as int,
                row as int,
                column as int,
            );
        }
        (row * self.width + column) as usize
    }

    /// Flat index of a coordinate pair after toroidal wraparound: the row
    /// is reduced modulo the height and the column modulo the width.
    fn get_clamp_index(&self, row: u64, column: u64) -> (idx: usize)
        requires
            self.wf(),
            self@.width >= 1,
            self@.height >= 1,
        ensures
            idx == wrapped_flat(self@, row as int, column as int),
            idx < self@.cells.len(),
    {
        let clamp_row = (row % (self.height as u64)) as u32;
        let clamp_col = (column % (self.width as u64)) as u32;
        self.get_index(clamp_row, clamp_col)
    }

    /// A fresh 64 x 64 grid with every cell Dead. A host that wants the
    /// customary random start seeds it afterwards through [`Self::random`].
    pub fn new() -> (u: Universe)
        ensures
            u.wf(),
            u@.width == 64,
            u@.height == 64,
            u@.cells == Seq::new(4096nat, |i: int| false),
    {
        let width: u32 = 64;
        let height: u32 = 64;
        let size: usize = 4096;
        Universe { width, height, cells: fbs_with_capacity(size) }
    }

    /// Number of columns.
    pub fn width(&self) -> (w: u32)
        ensures
            w == self@.width,
    {
        self.width
    }

    /// Number of rows.
    pub fn height(&self) -> (h: u32)
        ensures
            h == self@.height,
    {
        self.height
    }

    /// Read the cell at an in-range coordinate pair.
    pub fn get_cell(&self, row: u32, column: u32) -> (c: Cell)
        requires
            self.wf(),
            row < self@.height,
            column < self@.width,
        ensures
            c == (if self@.cells[flat(self@.width as int, row as int, column as int)] {
                Cell::Alive
            } else {
                Cell::Dead
            }),
    {
        let idx = self.get_index(row, column);
        if fbs_contains(&self.cells, idx) {
            Cell::Alive
        } else {
            Cell::Dead
        }
    }

    /// Read one cell through toroidal wraparound of both coordinates.
    fn wrapped_bit(&self, row: u64, column: u64) -> (b: bool)
        requires
            self.wf(),
            self@.width >= 1,
            self@.height >= 1,
        ensures
            b == cell_at(self@, row as int, column as int),
    {
        let idx = self.get_clamp_index(row, column);
        fbs_contains(&self.cells, idx)
    }

    /// Count the live neighbors of an in-range cell: the 8 cells at row
    /// and column offsets in {-1, 0, +1} excluding the center, each offset
    /// applied with toroidal wraparound (row 0's upper neighbor is the
    /// last row, and likewise for columns).
    pub fn live_neighbor_count(&self, row: u32, column: u32) -> (count: u8)
        requires
            self.wf(),
            row < self@.height,
            column < self@.width,
        ensures
            count == neighbor_count(self@, row as int, column as int),
            count <= 8,
    {
        let h = self.height as u64;
        let w = self.width as u64;
        let r = row as u64;
        let c = column as u64;
        let ghost hi = self@.height as int;
        let ghost wi = self@.width as int;

        proof {
            lemma_mod_add_multiples_vanish(row - 1, hi);
            lemma_mod_add_multiples_vanish(row as int, hi);
            lemma_mod_add_multiples_vanish(row + 1, hi);
            lemma_mod_add_multiples_vanish(column - 1, wi);
            lemma_mod_add_multiples_vanish(column as int, wi);
            lemma_mod_add_multiples_vanish(column + 1, wi);
        }

        let b_nw = self.wrapped_bit(r + h - 1, c + w - 1);
        let b_n = self.wrapped_bit(r + h - 1, c + w);
        let b_ne = self.wrapped_bit(r + h - 1, c + w + 1);
        let b_w = self.wrapped_bit(r + h, c + w - 1);
        let b_e = self.wrapped_bit(r + h, c + w + 1);
        let b_sw = self.wrapped_bit(r + h + 1, c + w - 1);
        let b_s = self.wrapped_bit(r + h + 1, c + w);
        let b_se = self.wrapped_bit(r + h + 1, c + w + 1);

        let mut count: u8 = 0;
        if b_nw {
            count += 1;
        }
        if b_n {
            count += 1;
        }
        if b_ne {
            count += 1;
        }
        if b_w {
            count += 1;
        }
        if b_e {
            count += 1;
        }
        if b_sw {
            count += 1;
        }
        if b_s {
            count += 1;
        }
        if b_se {
            count += 1;
        }
        count
    }

    /// Advance the whole grid by one generation. The next generation is
    /// computed into a separate buffer, every neighbor count reading the
    /// current generation, and installed in one swap at the end.
    pub fn tick(&mut self)
        requires
            old(self).wf(),
        ensures
            final(self).wf(),
            final(self)@ == next_gen(old(self)@),
    {
        let ghost g = self@;
        let ghost wi = g.width as int;
        let mut next = fbs_clone(&self.cells);
        let mut row: u32 = 0;
        while row < self.height
            invariant
                *self == *old(self),
                self.wf(),
                g == self@,
                wi == g.width as int,
                row <= self@.height,
                bit_seq(next).len() == g.cells.len(),
                forall|i: int|
                    0 <= i < row * wi ==> #[trigger] bit_seq(next)[i] == next_gen(g).cells[i],
            decreases self@.height - row,
        {
            let mut col: u32 = 0;
            while col < self.width
                invariant
                    *self == *old(self),
                    self.wf(),
                    g == self@,
                    wi == g.width as int,
                    row < self@.height,
                    col <= self@.width,
                    bit_seq(next).len() == g.cells.len(),
                    forall|i: int|
                        0 <= i < row * wi + col ==> #[trigger] bit_seq(next)[i] == next_gen(
                            g,
                        ).cells[i],
                decreases self@.width - col,
            {
                let idx = self.get_index(row, col);
                let cell = fbs_contains(&self.cells, idx);
                let live_neighbors = self.live_neighbor_count(row, col);
                let next_cell = if cell {
                    live_neighbors == 2 || live_neighbors == 3
                } else {
                    live_neighbors == 3
                };
                fbs_set(&mut next, idx, next_cell);
                proof {
                    lemma_flat_in_range(wi, g.height as int, row as int, col as int);
                    lemma_flat_div_mod(wi, row as int, col as int);
                    assert(next_gen(g).cells[idx as int] == step_cell(g, row as int, col as int));
                    assert(bit_seq(next)[idx as int] == next_cell);
                }
                col += 1;
            }
            proof {
                assert((row + 1) * wi == row * wi + wi) by (nonlinear_arith);
            }
            row += 1;
        }
        proof {
            assert(g.height as int * wi == wi * g.height as int) by (nonlinear_arith);
            assert(bit_seq(next) =~= next_gen(g).cells);
        }
        self.cells = next;
        proof {
            assert(self@ =~= next_gen(g));
        }
    }

    /// Set every cell to Dead.
    pub fn killall(&mut self)
        requires
            old(self).wf(),
        ensures
            final(self).wf(),
            final(self)@ == cleared(old(self)@),
    {
        fbs_clear(&mut self.cells);
    }

    /// The raw packed cell storage: one `u32` block per 32 cells, cell `i`
    /// in block `i / 32` at bit position `i % 32`. A read-only view for a
    /// host that draws pixels directly; valid until the next mutation.
    pub fn get_cells(&self) -> (r: &[u32])
        ensures
            r@.len() == (self@.cells.len() + 31) / 32,
            forall|i: int|
                0 <= i < self@.cells.len() ==> #[trigger] self@.cells[i] == (((r@[i / 32] >> ((i
                    % 32) as u32)) & 1) == 1),
    {
        fbs_as_slice(&self.cells)
    }

    /// The text rendering of the grid: `height` lines of `width` glyphs,
    /// one per cell, each line terminated by a newline.
    pub fn render(&self) -> (r: String)
        requires
            self.wf(),
        ensures
            r@ == rendered(self@),
    {
        let ghost g = self@;
        let ghost stride = g.width as int + 1;
        let mut out = String::new();
        let mut row: u32 = 0;
        while row < self.height
            invariant
                self.wf(),
                g == self@,
                stride == g.width as int + 1,
                row <= g.height,
                out@.len() == row * stride,
                forall|k: int| 0 <= k < out@.len() ==> #[trigger] out@[k] == render_char(g, k),
            decreases g.height - row,
        {
            let mut col: u32 = 0;
            while col < self.width
                invariant
                    self.wf(),
                    g == self@,
                    stride == g.width as int + 1,
                    row < g.height,
                    col <= g.width,
                    out@.len() == row * stride + col,
                    forall|k: int| 0 <= k < out@.len() ==> #[trigger] out@[k] == render_char(g, k),
                decreases g.width - col,
            {
                let ghost pos = out@.len() as int;
                let idx = self.get_index(row, col);
                let alive = fbs_contains(&self.cells, idx);
                if alive {
                    out.append("◻");
                } else {
                    out.append("◼");
                }
                proof {
                    reveal_strlit("◻");
                    reveal_strlit("◼");
                    lemma_flat_div_mod(stride, row as int, col as int);
                    assert(pos % stride == col && pos / stride == row);
                    assert(out@[pos] == render_char(g, pos));
                }
                col += 1;
            }
            let ghost pos = out@.len() as int;
            out.append("\n");
            proof {
                reveal_strlit("\n");
                lemma_flat_div_mod(stride, row as int, g.width as int);
                assert(pos % stride == g.width as int);
                assert(out@[pos] == render_char(g, pos));
                assert((row + 1) * stride == row * stride + stride) by (nonlinear_arith);
            }
            row += 1;
        }
        proof {
            assert(g.height as int * stride == g.height * (g.width + 1)) by (nonlinear_arith)
                requires
                    stride == g.width as int + 1,
            ;
            assert(out@ =~= rendered(g));
        }
        out
    }

    /// Set each listed cell to Alive, leaving every other cell untouched.
    /// Duplicate entries are idempotent. No wrapping: every coordinate
    /// pair must be in range.
    pub fn set_cells(&mut self, cells: &[(u32, u32)])
        requires
            old(self).wf(),
            forall|k: int| #![trigger cells@[k]]
                0 <= k < cells@.len() ==> cells@[k].0 < old(self)@.height && cells@[k].1 < old(
                    self,
                )@.width,
        ensures
            final(self).wf(),
            final(self)@.width == old(self)@.width,
            final(self)@.height == old(self)@.height,
            final(self)@.cells.len() == old(self)@.cells.len(),
            forall|i: int|
                0 <= i < final(self)@.cells.len() ==> #[trigger] final(self)@.cells[i] == (old(
                    self,
                )@.cells[i] || cell_listed(
                    old(self)@.width as int,
                    cells@,
                    cells@.len() as int,
                    i,
                )),
    {
        let ghost wi = old(self)@.width as int;
        let n = cells.len();
        let mut j: usize = 0;
        while j < n
            invariant
                self.wf(),
                self@.width == old(self)@.width,
                self@.height == old(self)@.height,
                self@.cells.len() == old(self)@.cells.len(),
                wi == old(self)@.width as int,
                n == cells@.len(),
                j <= n,
                forall|k: int| #![trigger cells@[k]]
                    0 <= k < cells@.len() ==> cells@[k].0 < old(self)@.height && cells@[k].1 < old(
                        self,
                    )@.width,
                forall|i: int|
                    0 <= i < self@.cells.len() ==> #[trigger] self@.cells[i] == (old(
                        self,
                    )@.cells[i] || cell_listed(wi, cells@, j as int, i)),
            decreases n - j,
        {
            let ghost pre = self@;
            let pair = cells[j];
            let idx = self.get_index(pair.0, pair.1);
            fbs_set(&mut self.cells, idx, true);
            proof {
                assert forall|i: int| 0 <= i < self@.cells.len() implies #[trigger] self@.cells[i]
                    == (old(self)@.cells[i] || cell_listed(wi, cells@, j + 1, i)) by {
                    if i == idx as int {
                        assert(names_cell(wi, cells@, j as int, i));
                        assert(cell_listed(wi, cells@, j + 1, i));
                        assert(self@.cells[i]);
                    } else {
                        assert(self@.cells[i] == pre.cells[i]);
                        if cell_listed(wi, cells@, j + 1, i) {
                            let k = choose|k: int|
                                0 <= k < j + 1 && names_cell(wi, cells@, k, i);
                            assert(k != j);
                            assert(cell_listed(wi, cells@, j as int, i));
                        }
                        if cell_listed(wi, cells@, j as int, i) {
                            let k = choose|k: int| 0 <= k < j && names_cell(wi, cells@, k, i);
                            assert(0 <= k < j + 1 && names_cell(wi, cells@, k, i));
                            assert(cell_listed(wi, cells@, j + 1, i));
                        }
                    }
                }
            }
            j += 1;
        }
    }

    /// Overwrite every cell from a caller-supplied sequence of draws, one
    /// boolean per cell in flat index order. The random source itself
    /// (each cell Alive with probability one half) lives with the host,
    /// which draws the booleans and hands them in.
    pub fn random(&mut self, bits: &Vec<bool>)
        requires
            old(self).wf(),
            bits@.len() == old(self)@.cells.len(),
        ensures
            final(self).wf(),
            final(self)@ == (GridView { cells: bits@, ..old(self)@ }),
    {
        let n = bits.len();
        let mut i: usize = 0;
        while i < n
            invariant
                self.wf(),
                self@.width == old(self)@.width,
                self@.height == old(self)@.height,
                self@.cells.len() == old(self)@.cells.len(),
                n == bits@.len(),
                bits@.len() == old(self)@.cells.len(),
                i <= n,
                forall|k: int| 0 <= k < i ==> #[trigger] self@.cells[k] == bits@[k],
            decreases n - i,
        {
            let b = bits[i];
            fbs_set(&mut self.cells, i, b);
            i += 1;
        }
        proof {
            assert(self@.cells =~= bits@);
            assert(self@ =~= (GridView { cells: bits@, ..old(self)@ }));
        }
    }

    /// Set the number of columns. The cell storage is reallocated to the
    /// new size and every cell is reset to Dead: no state is preserved.
    pub fn set_width(&mut self, width: u32)
        requires
            old(self).wf(),
            width * old(self)@.height <= u32::MAX,
        ensures
            final(self).wf(),
            final(self)@.width == width,
            final(self)@.height == old(self)@.height,
            final(self)@.cells == Seq::new((width * old(self)@.height) as nat, |i: int| false),
    {
        self.width = width;
        let size = (width as u64 * self.height as u64) as usize;
        self.cells = fbs_with_capacity(size);
    }

    /// Set the number of rows. The cell storage is reallocated to the new
    /// size and every cell is reset to Dead: no state is preserved.
    pub fn set_height(&mut self, height: u32)
        requires
            old(self).wf(),
            old(self)@.width * height <= u32::MAX,
        ensures
            final(self).wf(),
            final(self)@.width == old(self)@.width,
            final(self)@.height == height,
            final(self)@.cells == Seq::new((old(self)@.width * height) as nat, |i: int| false),
    {
        self.height = height;
        let size = (self.width as u64 * height as u64) as usize;
        self.cells = fbs_with_capacity(size);
    }

    /// Stamp the fixed 3 x 3 glider pattern with its top-left corner at
    /// `(row - 1, column - 1)`, writing all 9 footprint cells to their
    /// pattern value through toroidal wraparound — so the stamp can also
    /// extinguish previously live cells within its footprint.
    pub fn glider(&mut self, row: u32, column: u32)
        requires
            old(self).wf(),
            old(self)@.width >= 1,
            old(self)@.height >= 1,
        ensures
            final(self).wf(),
            final(self)@ == glider_stamped(old(self)@, row as int, column as int),
    {
        let ghost g = self@;
        let h = self.height as u64;
        let w = self.width as u64;
        let r = row as u64;
        let c = column as u64;

        proof {
            lemma_mod_add_multiples_vanish(row - 1, g.height as int);
            lemma_mod_add_multiples_vanish(row as int, g.height as int);
            lemma_mod_add_multiples_vanish(row + 1, g.height as int);
            lemma_mod_add_multiples_vanish(column - 1, g.width as int);
            lemma_mod_add_multiples_vanish(column as int, g.width as int);
            lemma_mod_add_multiples_vanish(column + 1, g.width as int);
        }

        let idx = self.get_clamp_index(r + h - 1, c + w - 1);
        fbs_set(&mut self.cells, idx, false);
        let idx = self.get_clamp_index(r + h - 1, c + w);
        fbs_set(&mut self.cells, idx, true);
        let idx = self.get_clamp_index(r + h - 1, c + w + 1);
        fbs_set(&mut self.cells, idx, false);

        let idx = self.get_clamp_index(r + h, c + w - 1);
        fbs_set(&mut self.cells, idx, false);
        let idx = self.get_clamp_index(r + h, c + w);
        fbs_set(&mut self.cells, idx, false);
        let idx = self.get_clamp_index(r + h, c + w + 1);
        fbs_set(&mut self.cells, idx, true);

        let idx = self.get_clamp_index(r + h + 1, c + w - 1);
        fbs_set(&mut self.cells, idx, true);
        let idx = self.get_clamp_index(r + h + 1, c + w);
        fbs_set(&mut self.cells, idx, true);
        let idx = self.get_clamp_index(r + h + 1, c + w + 1);
        fbs_set(&mut self.cells, idx, true);

        proof {
            assert(self@ =~= glider_stamped(g, row as int, column as int));
        }
    }

    /// Flip the single cell at an in-range coordinate pair. No wrapping:
    /// out-of-range coordinates are excluded by precondition.
    pub fn toggle_cell(&mut self, row: u32, column: u32)
        requires
            old(self).wf(),
            row < old(self)@.height,
            column < old(self)@.width,
        ensures
            final(self).wf(),
            final(self)@ == toggled(old(self)@, row as int, column as int),
    {
        let idx = self.get_index(row, column);
        let bit = fbs_contains(&self.cells, idx);
        fbs_set(&mut self.cells, idx, !bit);
    }
}

} // verus!
