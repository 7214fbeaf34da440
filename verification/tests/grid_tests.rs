use game_of_life::{Cell, Universe};

/// A `w x h` grid with every cell Dead.
fn grid(w: u32, h: u32) -> Universe {
    let mut u = Universe::new();
    u.set_width(w);
    u.set_height(h);
    u
}

fn alive_cells(u: &Universe) -> Vec<(u32, u32)> {
    let mut out = Vec::new();
    for r in 0..u.height() {
        for c in 0..u.width() {
            if u.get_cell(r, c) == Cell::Alive {
                out.push((r, c));
            }
        }
    }
    out
}

#[test]
fn new_universe_is_64_by_64_and_dead() {
    let u = Universe::new();
    assert_eq!(u.width(), 64);
    assert_eq!(u.height(), 64);
    assert!(alive_cells(&u).is_empty());
}

#[test]
fn set_width_resets_every_cell_to_dead() {
    let mut u = grid(8, 8);
    u.toggle_cell(3, 4);
    u.toggle_cell(7, 7);
    u.set_width(5);
    assert_eq!(u.width(), 5);
    assert_eq!(u.height(), 8);
    assert!(alive_cells(&u).is_empty());
}

#[test]
fn set_height_resets_every_cell_to_dead() {
    let mut u = grid(8, 8);
    u.set_cells(&[(0, 0), (5, 5)]);
    u.set_height(3);
    assert_eq!(u.width(), 8);
    assert_eq!(u.height(), 3);
    assert!(alive_cells(&u).is_empty());
}

#[test]
fn toggle_cell_flips_exactly_one_cell() {
    let mut u = grid(6, 6);
    u.set_cells(&[(1, 1), (4, 2)]);
    u.toggle_cell(2, 3);
    assert_eq!(alive_cells(&u), vec![(1, 1), (2, 3), (4, 2)]);
    u.toggle_cell(1, 1);
    assert_eq!(alive_cells(&u), vec![(2, 3), (4, 2)]);
}

#[test]
fn toggle_cell_twice_restores_the_grid() {
    let mut u = grid(6, 6);
    u.set_cells(&[(0, 0), (3, 3), (5, 1)]);
    let before = alive_cells(&u);
    u.toggle_cell(3, 3);
    u.toggle_cell(3, 3);
    assert_eq!(alive_cells(&u), before);
    u.toggle_cell(2, 2);
    u.toggle_cell(2, 2);
    assert_eq!(alive_cells(&u), before);
}

#[test]
fn killall_clears_and_is_idempotent() {
    let mut u = grid(7, 5);
    u.set_cells(&[(0, 0), (2, 3), (4, 6)]);
    u.killall();
    assert!(alive_cells(&u).is_empty());
    assert_eq!(u.width(), 7);
    assert_eq!(u.height(), 5);
    let once = u.render();
    u.killall();
    assert!(alive_cells(&u).is_empty());
    assert_eq!(u.render(), once);
}

#[test]
fn set_cells_sets_listed_cells_only_and_duplicates_are_idempotent() {
    let mut u = grid(6, 6);
    u.toggle_cell(5, 5);
    u.set_cells(&[(1, 2), (1, 2), (3, 0), (1, 2)]);
    assert_eq!(alive_cells(&u), vec![(1, 2), (3, 0), (5, 5)]);
}

#[test]
fn random_overwrites_every_cell_from_the_draws() {
    let mut u = grid(3, 2);
    u.set_cells(&[(0, 0), (1, 1)]);
    let bits = vec![true, false, true, false, false, true];
    u.random(&bits);
    assert_eq!(alive_cells(&u), vec![(0, 0), (0, 2), (1, 2)]);
}

#[test]
fn get_cells_packs_one_bit_per_cell_into_u32_blocks() {
    let mut u = grid(8, 4);
    u.set_cells(&[(0, 0), (0, 3), (1, 0)]);
    // bits 0, 3 and 8 of the single 32-bit block
    assert_eq!(u.get_cells(), &[1u32 + 8 + 256]);

    let u64x64 = Universe::new();
    assert_eq!(u64x64.get_cells(), vec![0u32; 128].as_slice());
}

#[test]
fn render_draws_one_glyph_per_cell_and_one_line_per_row() {
    let mut u = grid(3, 2);
    u.set_cells(&[(0, 1)]);
    assert_eq!(u.render(), "◼◻◼\n◼◼◼\n");
    u.killall();
    assert_eq!(u.render(), "◼◼◼\n◼◼◼\n");
}

#[test]
fn live_neighbor_count_sees_all_eight_neighbors() {
    let mut u = grid(5, 5);
    u.set_cells(&[(1, 1), (1, 2), (1, 3), (2, 1), (2, 3), (3, 1), (3, 2), (3, 3)]);
    assert_eq!(u.live_neighbor_count(2, 2), 8);
    assert_eq!(u.live_neighbor_count(0, 2), 3);
    assert_eq!(u.live_neighbor_count(2, 0), 3);
}

#[test]
fn live_neighbor_count_wraps_around_the_edges() {
    let mut u = grid(5, 5);
    u.set_cells(&[(0, 0)]);
    // (4, 4) touches (0, 0) across both edges
    assert_eq!(u.live_neighbor_count(4, 4), 1);
    assert_eq!(u.live_neighbor_count(4, 0), 1);
    assert_eq!(u.live_neighbor_count(0, 4), 1);
    assert_eq!(u.live_neighbor_count(0, 0), 0);
    assert_eq!(u.live_neighbor_count(2, 2), 0);
}

#[test]
fn live_neighbor_count_is_translation_invariant() {
    let w = 6u32;
    let h = 6u32;
    let pattern = [(1u32, 1u32), (2, 3), (5, 0)];
    let (dr, dc) = (2u32, 4u32);
    let mut s = grid(w, h);
    s.set_cells(&pattern);
    let translated: Vec<(u32, u32)> =
        pattern.iter().map(|&(r, c)| ((r + dr) % h, (c + dc) % w)).collect();
    let mut t = grid(w, h);
    t.set_cells(&translated);
    for r in 0..h {
        for c in 0..w {
            assert_eq!(
                t.live_neighbor_count((r + dr) % h, (c + dc) % w),
                s.live_neighbor_count(r, c)
            );
        }
    }
}
