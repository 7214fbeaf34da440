use game_of_life::{Cell, Universe};

fn dead_grid(w: u32, h: u32) -> Universe {
    let mut u = Universe::new();
    u.set_width(w);
    u.set_height(h);
    u
}

fn alive(u: &Universe) -> Vec<(u32, u32)> {
    let mut out = Vec::new();
    for r in 0..u.height() {
        for c in 0..u.width() {
            if u.get_cell(r, c) == Cell::Alive {
                out.push((r, c));
            }
        }
    }
    out
}

#[test]
fn tick_on_an_all_dead_grid_stays_all_dead() {
    let mut u = dead_grid(7, 7);
    u.tick();
    assert!(alive(&u).is_empty());
    let mut big = Universe::new();
    big.tick();
    assert!(alive(&big).is_empty());
}

#[test]
fn single_live_cell_dies_of_underpopulation() {
    let mut u = dead_grid(5, 5);
    u.set_cells(&[(2, 2)]);
    u.tick();
    assert!(alive(&u).is_empty());
}

#[test]
fn block_of_four_is_a_still_life() {
    let mut u = dead_grid(6, 6);
    let block = [(2u32, 2u32), (2, 3), (3, 2), (3, 3)];
    u.set_cells(&block);
    for &(r, c) in block.iter() {
        assert_eq!(u.live_neighbor_count(r, c), 3);
    }
    u.tick();
    assert_eq!(alive(&u), block.to_vec());
    u.tick();
    assert_eq!(alive(&u), block.to_vec());
}

#[test]
fn blinker_oscillates_with_period_two() {
    let mut u = dead_grid(5, 5);
    u.set_cells(&[(2, 1), (2, 2), (2, 3)]);
    u.tick();
    assert_eq!(alive(&u), vec![(1, 2), (2, 2), (3, 2)]);
    u.tick();
    assert_eq!(alive(&u), vec![(2, 1), (2, 2), (2, 3)]);
}

#[test]
fn glider_stamp_on_dead_grid_sets_exactly_the_five_pattern_cells() {
    let mut u = dead_grid(8, 8);
    u.glider(3, 3);
    assert_eq!(alive(&u), vec![(2, 3), (3, 4), (4, 2), (4, 3), (4, 4)]);
}

#[test]
fn glider_stamp_wraps_around_the_edges() {
    let mut u = dead_grid(5, 5);
    u.glider(0, 0);
    assert_eq!(alive(&u), vec![(0, 1), (1, 0), (1, 1), (1, 4), (4, 0)]);
}

#[test]
fn glider_stamp_extinguishes_dead_pattern_cells_in_its_footprint() {
    let mut u = dead_grid(8, 8);
    // the whole 3 x 3 footprint starts Alive; the stamp rewrites all 9 cells
    u.set_cells(&[(2, 2), (2, 3), (2, 4), (3, 2), (3, 3), (3, 4), (4, 2), (4, 3), (4, 4)]);
    u.glider(3, 3);
    assert_eq!(alive(&u), vec![(2, 3), (3, 4), (4, 2), (4, 3), (4, 4)]);
}

#[test]
fn glider_moves_diagonally_after_four_generations() {
    let mut u = dead_grid(10, 10);
    u.glider(3, 3);
    let start = alive(&u);
    for _ in 0..4 {
        u.tick();
    }
    let moved: Vec<(u32, u32)> = start.iter().map(|&(r, c)| (r + 1, c + 1)).collect();
    assert_eq!(alive(&u), moved);
}
