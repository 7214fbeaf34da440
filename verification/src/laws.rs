//! General laws of the engine, stated over the grid model and proved once
//! for all inputs.

use crate::model::{
    cell_at, cleared, flat, glider_stamped, lemma_flat_div_mod, lemma_flat_in_range,
    neighbor_count, next_gen, step_cell, toggled, wrapped_flat, GridView,
};
use vstd::arithmetic::div_mod::{
    lemma_add_mod_noop, lemma_div_pos_is_pos, lemma_mod_division_less_than_divisor,
    lemma_mod_self_0, lemma_multiply_divide_lt, lemma_small_mod,
};
use vstd::prelude::*;

verus! {

/// Every wrapped cell of an all-Dead grid reads Dead.
proof fn lemma_cell_at_all_dead(g: GridView, row: int, col: int)
    requires
        g.wf(),
        g.width >= 1,
        g.height >= 1,
        forall|i: int| 0 <= i < g.cells.len() ==> !g.cells[i],
    ensures
        !cell_at(g, row, col),
{
    let w = g.width as int;
    let h = g.height as int;
    lemma_mod_division_less_than_divisor(row, h);
    lemma_mod_division_less_than_divisor(col, w);
    lemma_flat_in_range(w, h, row % h, col % w);
    assert(!g.cells[wrapped_flat(g, row, col)]);
}

/// No spontaneous generation: one generation step of an all-Dead grid
/// yields the same all-Dead grid.
pub proof fn lemma_tick_preserves_all_dead(g: GridView)
    requires
        g.wf(),
        forall|i: int| 0 <= i < g.cells.len() ==> !g.cells[i],
    ensures
        next_gen(g) == g,
{
    let w = g.width as int;
    let h = g.height as int;
    assert forall|k: int| 0 <= k < g.cells.len() implies !next_gen(g).cells[k] by {
        assert(w >= 1 && h >= 1) by (nonlinear_arith)
            requires
                g.cells.len() == g.width * g.height,
                0 <= k < g.cells.len(),
                w == g.width as int,
                h == g.height as int,
        ;
        let r = k / w;
        let c = k % w;
        lemma_mod_division_less_than_divisor(k, w);
        lemma_div_pos_is_pos(k, w);
        assert(k < w * h) by (nonlinear_arith)
            requires
                g.cells.len() == g.width * g.height,
                k < g.cells.len(),
                w == g.width as int,
                h == g.height as int,
        ;
        lemma_multiply_divide_lt(k, w, h);
        lemma_cell_at_all_dead(g, r - 1, c - 1);
        lemma_cell_at_all_dead(g, r - 1, c);
        lemma_cell_at_all_dead(g, r - 1, c + 1);
        lemma_cell_at_all_dead(g, r, c - 1);
        lemma_cell_at_all_dead(g, r, c + 1);
        lemma_cell_at_all_dead(g, r + 1, c - 1);
        lemma_cell_at_all_dead(g, r + 1, c);
        lemma_cell_at_all_dead(g, r + 1, c + 1);
        assert(neighbor_count(g, r, c) == 0);
        assert(!step_cell(g, r, c));
    }
    assert(next_gen(g).cells =~= g.cells);
    assert(next_gen(g) =~= g);
}

/// Toroidal translation symmetry: if grid `t` holds the live-cell set of
/// grid `s` translated by `(dr, dc)` (with wraparound), then every cell's
/// live-neighbor count is translated the same way.
pub proof fn lemma_neighbor_count_translation(
    s: GridView,
    t: GridView,
    dr: int,
    dc: int,
    row: int,
    col: int,
)
    requires
        t.width == s.width,
        t.height == s.height,
        forall|r: int, c: int| #[trigger] cell_at(t, r, c) == cell_at(s, r - dr, c - dc),
    ensures
        neighbor_count(t, row, col) == neighbor_count(s, row - dr, col - dc),
{
}

/// Clearing is idempotent: clearing an already cleared grid changes
/// nothing.
pub proof fn lemma_clear_idempotent(g: GridView)
    ensures
        cleared(cleared(g)) == cleared(g),
{
    assert(cleared(cleared(g)).cells =~= cleared(g).cells);
    assert(cleared(cleared(g)) =~= cleared(g));
}

/// Toggling the same in-range cell twice restores the original grid, the
/// toggled cell and all other cells alike.
pub proof fn lemma_toggle_twice(g: GridView, row: int, col: int)
    requires
        g.wf(),
        0 <= row < g.height,
        0 <= col < g.width,
    ensures
        toggled(toggled(g, row, col), row, col) == g,
{
    lemma_flat_in_range(g.width as int, g.height as int, row, col);
    assert(toggled(toggled(g, row, col), row, col).cells =~= g.cells);
    assert(toggled(toggled(g, row, col), row, col) =~= g);
}

/// The value of `(x + 1) % m`: one more than `x % m`, wrapping to 0 at the
/// top.
proof fn lemma_mod_shift_one(x: int, m: int)
    requires
        m >= 2,
    ensures
        (x + 1) % m == if x % m == m - 1 {
            0int
        } else {
            x % m + 1
        },
{
    lemma_mod_division_less_than_divisor(x, m);
    lemma_add_mod_noop(x, 1, m);
    lemma_small_mod(1nat, m as nat);
    let q = x % m;
    if q == m - 1 {
        lemma_mod_self_0(m);
    } else {
        lemma_small_mod((q + 1) as nat, m as nat);
    }
}

/// Stamping the glider on an all-Dead grid at least 3 cells wide and high
/// makes exactly the 5 cells of the pattern Alive — the cell above the
/// center, the one right of the center, and the full row below it, all
/// wrapped — and leaves every other cell Dead.
pub proof fn lemma_glider_stamp_on_dead(g: GridView, row: int, col: int)
    requires
        g.wf(),
        g.width >= 3,
        g.height >= 3,
        0 <= row,
        0 <= col,
        forall|i: int| 0 <= i < g.cells.len() ==> !g.cells[i],
    ensures
        forall|i: int|
            0 <= i < g.cells.len() ==> (#[trigger] glider_stamped(g, row, col).cells[i] <==> (i
                == wrapped_flat(g, row - 1, col) || i == wrapped_flat(g, row, col + 1) || i
                == wrapped_flat(g, row + 1, col - 1) || i == wrapped_flat(g, row + 1, col) || i
                == wrapped_flat(g, row + 1, col + 1))),
{
    let w = g.width as int;
    let h = g.height as int;
    lemma_mod_division_less_than_divisor(row - 1, h);
    lemma_mod_division_less_than_divisor(col - 1, w);
    lemma_mod_shift_one(row - 1, h);
    lemma_mod_shift_one(row, h);
    lemma_mod_shift_one(col - 1, w);
    lemma_mod_shift_one(col, w);
    let r0 = (row - 1) % h;
    let r1 = row % h;
    let r2 = (row + 1) % h;
    let c0 = (col - 1) % w;
    let c1 = col % w;
    let c2 = (col + 1) % w;
    assert(r0 != r1 && r1 != r2 && r0 != r2);
    assert(c0 != c1 && c1 != c2 && c0 != c2);
    lemma_flat_in_range(w, h, r0, c0);
    lemma_flat_in_range(w, h, r0, c1);
    lemma_flat_in_range(w, h, r0, c2);
    lemma_flat_in_range(w, h, r1, c0);
    lemma_flat_in_range(w, h, r1, c1);
    lemma_flat_in_range(w, h, r1, c2);
    lemma_flat_in_range(w, h, r2, c0);
    lemma_flat_in_range(w, h, r2, c1);
    lemma_flat_in_range(w, h, r2, c2);
    lemma_flat_div_mod(w, r0, c0);
    lemma_flat_div_mod(w, r0, c1);
    lemma_flat_div_mod(w, r0, c2);
    lemma_flat_div_mod(w, r1, c0);
    lemma_flat_div_mod(w, r1, c1);
    lemma_flat_div_mod(w, r1, c2);
    lemma_flat_div_mod(w, r2, c0);
    lemma_flat_div_mod(w, r2, c1);
    lemma_flat_div_mod(w, r2, c2);
}

} // verus!
