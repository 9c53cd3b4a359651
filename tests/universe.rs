use jpcd_yew::cell::Cell;
use jpcd_yew::universe::Universe;

fn alive_set(u: &Universe) -> Vec<(usize, usize)> {
    let mut out = Vec::new();
    for r in 0..u.height() {
        for c in 0..u.width() {
            if u.get(r, c) == Cell::Alive {
                out.push((r, c));
            }
        }
    }
    out
}

fn pattern(width: usize, height: usize, coords: &[(usize, usize)]) -> Universe {
    let mut u = Universe::new(width, height);
    u.set_cells(coords);
    u
}

#[test]
fn seed_pattern_follows_divisibility() {
    let u = Universe::new(53, 40);
    assert_eq!(u.width(), 53);
    assert_eq!(u.height(), 40);
    assert_eq!(u.cells().len(), 53 * 40);
    for (i, cell) in u.cells().iter().enumerate() {
        let expected = if i % 9 == 0 || i % 7 == 0 { Cell::Alive } else { Cell::Dead };
        assert_eq!(*cell, expected, "index {}", i);
    }
}

#[test]
fn index_is_row_major() {
    let u = Universe::new(5, 4);
    assert_eq!(u.index(0, 0), 0);
    assert_eq!(u.index(2, 3), 13);
    assert_eq!(u.index(3, 4), 19);
}

#[test]
fn blinker_oscillates_with_period_two() {
    let mut u = pattern(5, 5, &[(2, 1), (2, 2), (2, 3)]);
    u.tick();
    assert_eq!(alive_set(&u), vec![(1, 2), (2, 2), (3, 2)]);
    u.tick();
    assert_eq!(alive_set(&u), vec![(2, 1), (2, 2), (2, 3)]);
}

#[test]
fn blinker_on_three_by_three_torus_fills_grid() {
    // On a 3x3 torus every cell neighbors all eight others.
    let mut u = pattern(3, 3, &[(1, 0), (1, 1), (1, 2)]);
    assert_eq!(u.live_neighbor_count(0, 0), 3);
    assert_eq!(u.live_neighbor_count(1, 1), 2);
    u.tick();
    assert_eq!(alive_set(&u).len(), 9);
}

#[test]
fn isolated_cell_dies() {
    let mut u = pattern(5, 5, &[(2, 2)]);
    assert_eq!(u.live_neighbor_count(2, 2), 0);
    u.tick();
    assert!(alive_set(&u).is_empty());
}

#[test]
fn block_is_still_life() {
    let block = [(1, 1), (1, 2), (2, 1), (2, 2)];
    for size in [4usize, 6] {
        let mut u = pattern(size, size, &block);
        for &(r, c) in block.iter() {
            assert_eq!(u.live_neighbor_count(r, c), 3);
        }
        u.tick();
        assert_eq!(alive_set(&u), block.to_vec());
    }
}

#[test]
fn neighbors_wrap_around_edges() {
    let mut u = pattern(4, 3, &[(2, 3)]);
    assert_eq!(u.live_neighbor_count(0, 0), 1);
    assert_eq!(u.live_neighbor_count(0, 3), 1);
    assert_eq!(u.live_neighbor_count(2, 0), 1);
    assert_eq!(u.live_neighbor_count(1, 1), 0);
    u.set_cells(&[(0, 0)]);
    assert_eq!(u.live_neighbor_count(2, 3), 1);
    assert_eq!(u.live_neighbor_count(1, 0), 1);
}

#[test]
fn neighbor_count_reaches_eight() {
    let all: Vec<(usize, usize)> = (0..5).flat_map(|r| (0..5).map(move |c| (r, c))).collect();
    let u = pattern(5, 5, &all);
    assert_eq!(u.live_neighbor_count(0, 0), 8);
    assert_eq!(u.live_neighbor_count(2, 2), 8);
}

#[test]
fn crowded_cells_die_and_births_happen() {
    // A plus sign: the center has four neighbors and dies.
    let mut u = pattern(5, 5, &[(1, 2), (2, 1), (2, 2), (2, 3), (3, 2)]);
    u.tick();
    assert_eq!(u.get(2, 2), Cell::Dead);
    assert_eq!(u.get(1, 1), Cell::Alive);
    assert_eq!(u.get(1, 2), Cell::Alive);
}

#[test]
fn toggle_twice_restores_cell() {
    let mut u = Universe::new(6, 5);
    let before = u.cells().to_vec();
    u.toggle_cell(3, 4);
    assert_ne!(u.cells().to_vec(), before);
    assert_eq!(u.get(3, 4), before[3 * 6 + 4].toggled());
    u.toggle_cell(3, 4);
    assert_eq!(u.cells().to_vec(), before);
}

#[test]
fn reset_restores_seed_after_edits() {
    let fresh = Universe::new(10, 7);
    let mut u = Universe::new(10, 7);
    u.toggle_cell(0, 1);
    u.tick();
    u.set_cells(&[(2, 2), (5, 5)]);
    u.tick();
    u.reset();
    assert_eq!(u.cells(), fresh.cells());
}

#[test]
fn set_cells_clears_unlisted_and_skips_out_of_range() {
    let mut u = Universe::new(4, 4);
    assert_eq!(u.get(0, 0), Cell::Alive);
    u.set_cells(&[(1, 1), (4, 0), (0, 4), (3, 2), (1, 1)]);
    assert_eq!(alive_set(&u), vec![(1, 1), (3, 2)]);
    u.set_cells(&[]);
    assert!(alive_set(&u).is_empty());
}

#[test]
fn tick_is_deterministic() {
    let mut a = Universe::new(12, 9);
    let mut b = Universe::new(12, 9);
    a.tick();
    b.tick();
    assert_eq!(a.cells(), b.cells());
}

#[test]
fn tick_matches_rule_cell_by_cell() {
    let before = Universe::new(11, 8);
    let mut after = Universe::new(11, 8);
    after.tick();
    for r in 0..8 {
        for c in 0..11 {
            let n = before.live_neighbor_count(r, c);
            assert_eq!(after.get(r, c), before.get(r, c).next(n));
        }
    }
}

#[test]
fn cell_rule_table() {
    assert_eq!(Cell::Alive.value(), 1);
    assert_eq!(Cell::Dead.value(), 0);
    assert_eq!(Cell::Alive.toggled(), Cell::Dead);
    assert_eq!(Cell::Dead.toggled(), Cell::Alive);
    for n in 0..=8u8 {
        let alive = Cell::Alive.next(n);
        let dead = Cell::Dead.next(n);
        assert_eq!(alive, if n == 2 || n == 3 { Cell::Alive } else { Cell::Dead });
        assert_eq!(dead, if n == 3 { Cell::Alive } else { Cell::Dead });
    }
}
