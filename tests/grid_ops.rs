use game_of_life::grid::Grid;

#[test]
fn new_grid_is_all_dead() {
    let g = Grid::new(4, 3);
    assert_eq!(g.width(), 4);
    assert_eq!(g.height(), 3);
    assert_eq!(g.cell_count(), 12);
    for x in 0..4 {
        for y in 0..3 {
            assert!(!g.get(x, y));
        }
    }
}

#[test]
fn seeded_grid_holds_exactly_the_listed_cells() {
    let g = Grid::from_live_cells(5, 4, &vec![(0, 0), (4, 3), (2, 1), (2, 1)]);
    for x in 0..5 {
        for y in 0..4 {
            let expected = (x, y) == (0, 0) || (x, y) == (4, 3) || (x, y) == (2, 1);
            assert_eq!(g.get(x, y), expected);
        }
    }
}

#[test]
fn set_changes_only_one_cell() {
    let mut g = Grid::new(3, 3);
    g.set(2, 1, true);
    assert!(g.get(2, 1));
    assert!(!g.get(1, 2));
    assert!(!g.get(1, 1));
    g.set(2, 1, false);
    assert!(!g.get(2, 1));
}

#[test]
fn toggle_flips_and_flips_back() {
    let mut g = Grid::new(2, 5);
    g.toggle(1, 4);
    assert!(g.get(1, 4));
    assert!(!g.get(0, 4));
    g.toggle(1, 4);
    assert!(!g.get(1, 4));
}

#[test]
fn clear_kills_every_cell_and_keeps_size() {
    let mut g = Grid::from_live_cells(3, 2, &vec![(0, 0), (1, 1), (2, 0)]);
    g.clear();
    assert_eq!(g.width(), 3);
    assert_eq!(g.height(), 2);
    for x in 0..3 {
        for y in 0..2 {
            assert!(!g.get(x, y));
        }
    }
}

#[test]
fn empty_grid_has_no_cells() {
    let g = Grid::new(0, 7);
    assert_eq!(g.width(), 0);
    assert_eq!(g.height(), 7);
    assert_eq!(g.cell_count(), 0);
}
