use particle_sim::cell::Cell;
use particle_sim::grid::Grid;
use particle_sim::material::MaterialKind;

fn kind_at(grid: &Grid, x: i64, y: i64) -> MaterialKind {
    grid.cell_at(x, y).unwrap().kind
}

fn count(grid: &Grid, kind: MaterialKind) -> usize {
    let mut n = 0;
    for y in 0..grid.height() {
        for x in 0..grid.width() {
            if kind_at(grid, x, y) == kind {
                n += 1;
            }
        }
    }
    n
}

#[test]
fn new_grid_is_empty() {
    let grid = Grid::new(4, 3);
    assert_eq!(grid.width(), 4);
    assert_eq!(grid.height(), 3);
    for y in 0..3 {
        for x in 0..4 {
            assert_eq!(grid.cell_at(x, y), Some(Cell::new_empty()));
            assert!(!grid.was_moved(x, y));
        }
    }
}

#[test]
fn bounds_check_covers_all_four_sides() {
    let grid = Grid::new(4, 3);
    assert!(grid.in_bounds(0, 0));
    assert!(grid.in_bounds(3, 2));
    assert!(!grid.in_bounds(-1, 0));
    assert!(!grid.in_bounds(0, -1));
    assert!(!grid.in_bounds(4, 0));
    assert!(!grid.in_bounds(0, 3));
    assert_eq!(grid.cell_at(4, 0), None);
    assert_eq!(grid.cell_at(0, 3), None);
    assert_eq!(grid.cell_at(-1, -1), None);
    assert!(!grid.was_moved(-1, 0));
    assert!(!grid.was_moved(4, 3));
}

#[test]
fn radius_zero_is_the_centre() {
    let grid = Grid::new(5, 5);
    assert_eq!(grid.get_circle_positions(2, 3, 0), vec![(2, 3)]);
}

#[test]
fn radius_one_is_a_plus() {
    let grid = Grid::new(5, 5);
    assert_eq!(
        grid.get_circle_positions(2, 2, 1),
        vec![(2, 1), (1, 2), (2, 2), (3, 2), (2, 3)]
    );
}

#[test]
fn radius_two_is_a_filled_disc() {
    let grid = Grid::new(7, 7);
    let expected = vec![
        (3, 1),
        (2, 2),
        (3, 2),
        (4, 2),
        (1, 3),
        (2, 3),
        (3, 3),
        (4, 3),
        (5, 3),
        (2, 4),
        (3, 4),
        (4, 4),
        (3, 5),
    ];
    assert_eq!(grid.get_circle_positions(3, 3, 2), expected);
}

#[test]
fn disc_matches_the_inclusion_test() {
    let grid = Grid::new(20, 15);
    for (cx, cy, r) in [(10, 7, 3), (0, 0, 4), (19, 14, 5), (5, 20, 7), (-3, 4, 6), (8, 8, 30)] {
        let mut expected = Vec::new();
        for y in 0..15i32 {
            for x in 0..20i32 {
                if (x - cx) * (x - cx) + (y - cy) * (y - cy) <= r * r {
                    expected.push((x, y));
                }
            }
        }
        assert_eq!(grid.get_circle_positions(cx, cy, r), expected);
    }
}

#[test]
fn disc_is_clipped_to_the_grid() {
    let grid = Grid::new(3, 3);
    assert_eq!(grid.get_circle_positions(0, 0, 1), vec![(0, 0), (1, 0), (0, 1)]);
    assert_eq!(grid.get_circle_positions(-1, 1, 1), vec![(0, 1)]);
    assert_eq!(grid.get_circle_positions(-5, -5, 2), Vec::<(i32, i32)>::new());
    assert_eq!(grid.get_circle_positions(10, 1, 3), Vec::<(i32, i32)>::new());
}

#[test]
fn negative_radius_covers_nothing() {
    let grid = Grid::new(3, 3);
    assert_eq!(grid.get_circle_positions(1, 1, -1), Vec::<(i32, i32)>::new());
    assert_eq!(grid.get_circle_positions(1, 1, i32::MIN), Vec::<(i32, i32)>::new());
}

#[test]
fn extreme_arguments_do_not_overflow() {
    let grid = Grid::new(3, 2);
    let all = vec![(0, 0), (1, 0), (2, 0), (0, 1), (1, 1), (2, 1)];
    assert_eq!(grid.get_circle_positions(0, 0, i32::MAX), all);
    assert_eq!(grid.get_circle_positions(i32::MIN, i32::MIN, i32::MAX), Vec::<(i32, i32)>::new());
    assert_eq!(grid.get_circle_positions(i32::MAX, i32::MAX, i32::MAX), Vec::<(i32, i32)>::new());
}

#[test]
fn placing_fills_exactly_the_brush() {
    let mut grid = Grid::new(9, 9);
    grid.place_element(4, 4, MaterialKind::Sand, 2);
    let covered = grid.get_circle_positions(4, 4, 2);
    assert_eq!(covered.len(), 13);
    for y in 0..9 {
        for x in 0..9 {
            let expected = if covered.contains(&(x as i32, y as i32)) {
                MaterialKind::Sand
            } else {
                MaterialKind::Empty
            };
            assert_eq!(kind_at(&grid, x, y), expected);
        }
    }
}

#[test]
fn placing_makes_fresh_cells() {
    let mut grid = Grid::new(5, 5);
    grid.place_element(2, 2, MaterialKind::Fire, 1);
    for (x, y) in grid.get_circle_positions(2, 2, 1) {
        let cell = grid.cell_at(x as i64, y as i64).unwrap();
        assert_eq!(cell.kind, MaterialKind::Fire);
        assert_eq!(cell.age, 0);
        assert_eq!(cell.max_age, 30);
        assert!(900 <= cell.tint && cell.tint < 1100);
        assert!(!grid.was_moved(x as i64, y as i64));
    }
}

#[test]
fn placing_sand_on_occupied_cells_changes_nothing() {
    let mut grid = Grid::new(5, 5);
    grid.place_element(2, 2, MaterialKind::Water, 1);
    let before: Vec<Cell> =
        (0..25).map(|i| grid.cell_at(i % 5, i / 5).unwrap()).collect();
    grid.place_element(2, 2, MaterialKind::Sand, 1);
    let after: Vec<Cell> = (0..25).map(|i| grid.cell_at(i % 5, i / 5).unwrap()).collect();
    assert_eq!(before, after);
}

#[test]
fn placing_fills_only_the_gaps() {
    let mut grid = Grid::new(5, 5);
    grid.place_element(2, 2, MaterialKind::Clay, 0);
    let clay = grid.cell_at(2, 2).unwrap();
    grid.place_element(2, 2, MaterialKind::Sand, 1);
    assert_eq!(grid.cell_at(2, 2), Some(clay));
    assert_eq!(count(&grid, MaterialKind::Sand), 4);
    assert_eq!(count(&grid, MaterialKind::Clay), 1);
}

#[test]
fn erasing_always_clears() {
    let mut grid = Grid::new(7, 7);
    grid.place_element(3, 3, MaterialKind::Clay, 3);
    grid.place_element(3, 3, MaterialKind::Empty, 1);
    for (x, y) in grid.get_circle_positions(3, 3, 1) {
        assert_eq!(grid.cell_at(x as i64, y as i64), Some(Cell::new_empty()));
    }
    assert_eq!(count(&grid, MaterialKind::Clay), 29 - 5);
}

#[test]
fn placing_outside_the_grid_is_silently_clipped() {
    let mut grid = Grid::new(4, 4);
    grid.place_element(-10, -10, MaterialKind::Sand, 3);
    grid.place_element(100, 2, MaterialKind::Sand, 3);
    assert_eq!(count(&grid, MaterialKind::Empty), 16);
    grid.place_element(0, 0, MaterialKind::Sand, 1);
    assert_eq!(count(&grid, MaterialKind::Sand), 3);
    grid.place_element(1, 1, MaterialKind::Water, -2);
    assert_eq!(count(&grid, MaterialKind::Water), 0);
}

#[test]
fn placing_every_kind_works() {
    for kind in [
        MaterialKind::Sand,
        MaterialKind::Clay,
        MaterialKind::Water,
        MaterialKind::WetSand,
        MaterialKind::Fire,
        MaterialKind::Glass,
        MaterialKind::Smoke,
        MaterialKind::Steam,
    ] {
        let mut grid = Grid::new(3, 3);
        grid.place_element(1, 1, kind, 0);
        let cell = grid.cell_at(1, 1).unwrap();
        assert_eq!(cell.kind, kind);
        assert_eq!(cell.max_age, kind.max_age());
        assert_eq!(count(&grid, MaterialKind::Empty), 8);
    }
}

#[test]
fn move_and_swap_primitives() {
    let mut grid = Grid::new(3, 3);
    grid.place_element(0, 0, MaterialKind::Sand, 0);
    grid.place_element(1, 0, MaterialKind::Water, 0);
    let sand = grid.cell_at(0, 0).unwrap();
    let water = grid.cell_at(1, 0).unwrap();

    grid.move_particle(0, 0, 0, 1);
    assert_eq!(grid.cell_at(0, 0), Some(Cell::new_empty()));
    assert_eq!(grid.cell_at(0, 1), Some(sand));
    assert!(grid.was_moved(0, 1));
    assert!(!grid.was_moved(0, 0));

    grid.swap_particle(0, 1, 1, 0);
    assert_eq!(grid.cell_at(1, 0), Some(sand));
    assert_eq!(grid.cell_at(0, 1), Some(water));
    assert!(grid.was_moved(1, 0));
    assert_eq!(count(&grid, MaterialKind::Sand), 1);
    assert_eq!(count(&grid, MaterialKind::Water), 1);
    assert_eq!(count(&grid, MaterialKind::Empty), 7);
}

#[test]
fn try_move_needs_an_open_target() {
    let mut grid = Grid::new(2, 2);
    grid.place_element(0, 0, MaterialKind::Sand, 0);
    grid.place_element(0, 1, MaterialKind::Clay, 0);
    assert!(!grid.try_move(0, 0, 0, 1));
    assert!(!grid.try_move(0, 0, -1, 0));
    assert!(!grid.try_move(0, 0, 0, 2));
    assert!(!grid.try_move(0, 0, 2, 0));
    assert_eq!(kind_at(&grid, 0, 0), MaterialKind::Sand);
    assert!(grid.try_move(0, 0, 1, 1));
    assert_eq!(kind_at(&grid, 1, 1), MaterialKind::Sand);
    assert_eq!(kind_at(&grid, 0, 0), MaterialKind::Empty);
    assert!(grid.was_moved(1, 1));
}

#[test]
fn square_area_is_clipped_and_row_major() {
    let grid = Grid::new(3, 3);
    assert_eq!(
        grid.get_square_area(1, 1),
        vec![(0, 0), (1, 0), (2, 0), (0, 1), (1, 1), (2, 1), (0, 2), (1, 2), (2, 2)]
    );
    assert_eq!(grid.get_square_area(0, 0), vec![(0, 0), (1, 0), (0, 1), (1, 1)]);
    assert_eq!(grid.get_square_area(2, 1), vec![(1, 0), (2, 0), (1, 1), (2, 1), (1, 2), (2, 2)]);
    let tiny = Grid::new(1, 1);
    assert_eq!(tiny.get_square_area(0, 0), vec![(0, 0)]);
}
