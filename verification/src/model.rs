//! Mathematical model of the toroidal grid.
//!
//! A grid state is a `GridView`: a width, a height, and a sequence of
//! `width * height` booleans, row-major, `true` meaning Alive. Every
//! contract of the executable engine is stated over this model.

use vstd::arithmetic::div_mod::{
    lemma_fundamental_div_mod_converse_div, lemma_fundamental_div_mod_converse_mod,
};
use vstd::prelude::*;

verus! {

/// Abstract state of a grid: dimensions and the packed cell sequence,
/// row-major, `true` = Alive.
#[verifier::ext_equal]
pub ghost struct GridView {
    pub width: nat,
    pub height: nat,
    pub cells: Seq<bool>,
}

impl GridView {
    /// The cell sequence has exactly one bit per cell and the flat index
    /// arithmetic fits in a `u32`, as the executable representation needs.
    pub open spec fn wf(self) -> bool {
        &&& self.cells.len() == self.width * self.height
        &&& self.width * self.height <= u32::MAX
        &&& self.width <= u32::MAX
        &&& self.height <= u32::MAX
    }
}

/// Flat row-major index of an in-range coordinate pair.
pub open spec fn flat(width: int, row: int, col: int) -> int {
    row * width + col
}

/// Flat index of `(row, col)` after toroidal wraparound: both coordinates
/// are reduced modulo the grid dimensions, so every integer coordinate
/// names a cell.
pub open spec fn wrapped_flat(g: GridView, row: int, col: int) -> int {
    flat(g.width as int, row % (g.height as int), col % (g.width as int))
}

/// The cell read at `(row, col)` after toroidal wraparound.
pub open spec fn cell_at(g: GridView, row: int, col: int) -> bool {
    g.cells[wrapped_flat(g, row, col)]
}

/// One neighbor term: 1 when the cell at offset `(dr, dc)` from
/// `(row, col)` (with wraparound) is Alive, except that the center offset
/// `(0, 0)` never counts.
pub open spec fn neighbor_term(g: GridView, row: int, col: int, dr: int, dc: int) -> nat {
    if dr == 0 && dc == 0 {
        0
    } else if cell_at(g, row + dr, col + dc) {
        1
    } else {
        0
    }
}

/// Number of live neighbors of `(row, col)`: the 8 cells at row and column
/// offsets in {-1, 0, +1}, excluding the center, each located with toroidal
/// wraparound. On degenerate grids distinct offsets may reach the same
/// cell, which is then counted once per offset.
pub open spec fn neighbor_count(g: GridView, row: int, col: int) -> nat {
    neighbor_term(g, row, col, -1, -1) + neighbor_term(g, row, col, -1, 0) + neighbor_term(
        g,
        row,
        col,
        -1,
        1,
    ) + neighbor_term(g, row, col, 0, -1) + neighbor_term(g, row, col, 0, 1) + neighbor_term(
        g,
        row,
        col,
        1,
        -1,
    ) + neighbor_term(g, row, col, 1, 0) + neighbor_term(g, row, col, 1, 1)
}

/// The transition rule for one cell: a live cell survives with 2 or 3 live
/// neighbors (otherwise it dies of under- or overpopulation), and a dead
/// cell is born with exactly 3 live neighbors.
pub open spec fn life_rule(alive: bool, live_neighbors: nat) -> bool {
    live_neighbors == 3 || (alive && live_neighbors == 2)
}

/// The state of the cell at in-range `(row, col)` in the next generation.
pub open spec fn step_cell(g: GridView, row: int, col: int) -> bool {
    life_rule(g.cells[flat(g.width as int, row, col)], neighbor_count(g, row, col))
}

/// The whole next generation: every cell stepped at once, all neighbor
/// counts taken from the current generation.
pub open spec fn next_gen(g: GridView) -> GridView {
    GridView {
        cells: Seq::new(
            g.cells.len(),
            |i: int| step_cell(g, i / (g.width as int), i % (g.width as int)),
        ),
        ..g
    }
}

/// The grid with every cell Dead and the dimensions kept.
pub open spec fn cleared(g: GridView) -> GridView {
    GridView { cells: Seq::new(g.cells.len(), |i: int| false), ..g }
}

/// The glyph that renders one cell.
pub open spec fn glyph(alive: bool) -> char {
    if alive {
        '◻'
    } else {
        '◼'
    }
}

/// Character `k` of the text rendering: the grid as `height` lines of
/// `width` glyphs, each line terminated by a newline, so line `i` occupies
/// positions `i * (width + 1)` up to and including its newline.
pub open spec fn render_char(g: GridView, k: int) -> char {
    let stride = g.width as int + 1;
    if k % stride == g.width as int {
        '\n'
    } else {
        glyph(g.cells[flat(g.width as int, k / stride, k % stride)])
    }
}

/// The full text rendering of a grid.
pub open spec fn rendered(g: GridView) -> Seq<char> {
    Seq::new(g.height * (g.width + 1), |k: int| render_char(g, k))
}

/// An in-range coordinate pair has a flat index within the cell sequence.
pub proof fn lemma_flat_in_range(width: int, height: int, row: int, col: int)
    requires
        0 <= row < height,
        0 <= col < width,
    ensures
        0 <= flat(width, row, col) < width * height,
{
    assert(0 <= row * width + col < width * height) by (nonlinear_arith)
        requires
            0 <= row < height,
            0 <= col < width,
    ;
}

/// Division and remainder by the width invert the flat index arithmetic.
pub proof fn lemma_flat_div_mod(width: int, row: int, col: int)
    requires
        0 <= row,
        0 <= col < width,
    ensures
        flat(width, row, col) / width == row,
        flat(width, row, col) % width == col,
{
    lemma_fundamental_div_mod_converse_div(row * width + col, width, row, col);
    lemma_fundamental_div_mod_converse_mod(row * width + col, width, row, col);
}

/// Entry `k` of a coordinate list names the flat cell index `i`.
pub open spec fn names_cell(width: int, pairs: Seq<(u32, u32)>, k: int, i: int) -> bool {
    i == flat(width, pairs[k].0 as int, pairs[k].1 as int)
}

/// Some entry among the first `n` of a coordinate list names the flat
/// cell index `i`.
pub open spec fn cell_listed(width: int, pairs: Seq<(u32, u32)>, n: int, i: int) -> bool {
    exists|k: int| 0 <= k < n && names_cell(width, pairs, k, i)
}

/// The grid after stamping the fixed 3 x 3 glider pattern with its
/// top-left corner at `(row - 1, col - 1)`: all 9 cells of the footprint
/// are written to their pattern value (Dead cells of the pattern
/// included), each through toroidal wraparound, in row-major order.
pub open spec fn glider_stamped(g: GridView, row: int, col: int) -> GridView {
    GridView {
        cells: g.cells.update(wrapped_flat(g, row - 1, col - 1), false).update(
            wrapped_flat(g, row - 1, col),
            true,
        ).update(wrapped_flat(g, row - 1, col + 1), false).update(
            wrapped_flat(g, row, col - 1),
            false,
        ).update(wrapped_flat(g, row, col), false).update(wrapped_flat(g, row, col + 1), true)
            .update(wrapped_flat(g, row + 1, col - 1), true).update(
            wrapped_flat(g, row + 1, col),
            true,
        ).update(wrapped_flat(g, row + 1, col + 1), true),
        ..g
    }
}

/// The grid with the single in-range cell `(row, col)` flipped.
pub open spec fn toggled(g: GridView, row: int, col: int) -> GridView {
    GridView {
        cells: g.cells.update(
            flat(g.width as int, row, col),
            !g.cells[flat(g.width as int, row, col)],
        ),
        ..g
    }
}

} // verus!
