use particle_sim::cell::Cell;
use particle_sim::chance::Draw;
use particle_sim::grid::Grid;
use particle_sim::material::MaterialKind;

fn kind_at(grid: &Grid, x: i64, y: i64) -> MaterialKind {
    grid.cell_at(x, y).unwrap().kind
}

fn count(grid: &Grid, kind: MaterialKind) -> usize {
    let mut n = 0;
    for y in 0..grid.height() {
        for x in 0..grid.width() {
            if kind_at(grid, x, y) == kind {
                n += 1;
            }
        }
    }
    n
}

fn occupied(grid: &Grid) -> usize {
    (grid.width() * grid.height()) as usize - count(grid, MaterialKind::Empty)
}

fn row_count(grid: &Grid, y: i64, kind: MaterialKind) -> usize {
    (0..grid.width()).filter(|&x| kind_at(grid, x, y) == kind).count()
}

fn put(grid: &mut Grid, x: i32, y: i32, kind: MaterialKind) {
    grid.place_element(x, y, kind, 0);
}

#[test]
fn empty_grid_stays_empty() {
    let mut grid = Grid::new(6, 4);
    for _ in 0..5 {
        grid.update();
    }
    assert_eq!(count(&grid, MaterialKind::Empty), 24);
}

#[test]
fn lone_sand_falls_one_row_per_tick() {
    let mut grid = Grid::new(5, 6);
    put(&mut grid, 2, 0, MaterialKind::Sand);
    let sand = grid.cell_at(2, 0).unwrap();
    for row in 1..6 {
        grid.update();
        assert_eq!(grid.cell_at(2, row), Some(sand));
        assert_eq!(occupied(&grid), 1);
        assert!(grid.was_moved(2, row));
    }
    grid.update();
    assert_eq!(grid.cell_at(2, 5), Some(sand));
    assert_eq!(occupied(&grid), 1);
    assert!(!grid.was_moved(2, 5));
}

#[test]
fn tick_clears_the_moved_mask_first() {
    let mut grid = Grid::new(3, 3);
    put(&mut grid, 1, 0, MaterialKind::Clay);
    grid.move_particle(1, 0, 1, 1);
    assert!(grid.was_moved(1, 1));
    grid.update();
    assert!(!grid.was_moved(1, 1));
    assert_eq!(kind_at(&grid, 1, 1), MaterialKind::Clay);
}

#[test]
fn stacked_sand_does_not_cascade() {
    let mut grid = Grid::new(1, 8);
    put(&mut grid, 0, 0, MaterialKind::Sand);
    put(&mut grid, 0, 1, MaterialKind::Sand);
    grid.update();
    assert_eq!(kind_at(&grid, 0, 0), MaterialKind::Sand);
    assert_eq!(kind_at(&grid, 0, 1), MaterialKind::Empty);
    assert_eq!(kind_at(&grid, 0, 2), MaterialKind::Sand);
    grid.update();
    assert_eq!(kind_at(&grid, 0, 1), MaterialKind::Sand);
    assert_eq!(kind_at(&grid, 0, 3), MaterialKind::Sand);
    assert_eq!(count(&grid, MaterialKind::Sand), 2);
}

#[test]
fn sand_and_water_are_conserved() {
    let mut grid = Grid::new(30, 20);
    grid.place_element(8, 5, MaterialKind::Sand, 4);
    grid.place_element(22, 6, MaterialKind::Water, 4);
    grid.place_element(15, 15, MaterialKind::Clay, 3);
    let sand = count(&grid, MaterialKind::Sand);
    let water = count(&grid, MaterialKind::Water);
    let clay = count(&grid, MaterialKind::Clay);
    let total = occupied(&grid);
    for _ in 0..200 {
        grid.update();
        assert_eq!(occupied(&grid), total);
        assert_eq!(count(&grid, MaterialKind::Clay), clay);
        assert_eq!(count(&grid, MaterialKind::Water), water);
        assert_eq!(count(&grid, MaterialKind::Sand) + count(&grid, MaterialKind::WetSand), sand);
    }
}

#[test]
fn settled_sand_forms_a_pile_on_the_floor() {
    let mut grid = Grid::new(21, 12);
    for y in 0..6 {
        put(&mut grid, 10, y, MaterialKind::Sand);
    }
    for _ in 0..100 {
        grid.update();
    }
    assert_eq!(count(&grid, MaterialKind::Sand), 6);
    for y in 0..12 {
        for x in 0..21 {
            if kind_at(&grid, x, y) == MaterialKind::Sand && y < 11 {
                assert_ne!(kind_at(&grid, x, y + 1), MaterialKind::Empty);
            }
        }
    }
    assert!(row_count(&grid, 11, MaterialKind::Sand) >= 3);
}

#[test]
fn water_column_levels_out_on_the_floor() {
    let mut grid = Grid::new(15, 10);
    for y in 0..6 {
        put(&mut grid, 7, y, MaterialKind::Water);
    }
    for _ in 0..2000 {
        grid.update();
    }
    assert_eq!(count(&grid, MaterialKind::Water), 6);
    assert_eq!(row_count(&grid, 9, MaterialKind::Water), 6);
    for y in 0..9 {
        assert_eq!(row_count(&grid, y, MaterialKind::Water), 0);
    }
}

#[test]
fn water_fills_the_floor_before_piling_higher() {
    let mut grid = Grid::new(4, 8);
    for y in 0..6 {
        put(&mut grid, 1, y, MaterialKind::Water);
    }
    for _ in 0..2000 {
        grid.update();
    }
    assert_eq!(count(&grid, MaterialKind::Water), 6);
    assert_eq!(row_count(&grid, 7, MaterialKind::Water), 4);
    assert_eq!(row_count(&grid, 6, MaterialKind::Water), 2);
}

#[test]
fn water_next_to_sand_wets_it_within_one_tick() {
    for (dx, dy) in [(-1, -1), (0, -1), (1, -1), (-1, 0), (1, 0), (-1, 1), (0, 1), (1, 1)] {
        let mut grid = Grid::new(5, 3);
        for x in 0..5 {
            put(&mut grid, x, 2, MaterialKind::Clay);
        }
        put(&mut grid, 2, 1, MaterialKind::Water);
        if dy == 1 {
            grid.place_element(2 + dx, 2, MaterialKind::Empty, 0);
        }
        put(&mut grid, 2 + dx, 1 + dy, MaterialKind::Sand);
        grid.update();
        assert_eq!(count(&grid, MaterialKind::Sand), 0);
        assert_eq!(count(&grid, MaterialKind::WetSand), 1);
        assert_eq!(count(&grid, MaterialKind::Water), 1);
    }
}

#[test]
fn wet_sand_and_water_swap_in_one_tick() {
    let mut grid = Grid::new(3, 3);
    for x in 0..3 {
        put(&mut grid, x, 2, MaterialKind::Clay);
    }
    put(&mut grid, 0, 1, MaterialKind::Clay);
    put(&mut grid, 2, 1, MaterialKind::Clay);
    put(&mut grid, 0, 0, MaterialKind::Clay);
    put(&mut grid, 2, 0, MaterialKind::Clay);
    put(&mut grid, 1, 0, MaterialKind::WetSand);
    put(&mut grid, 1, 1, MaterialKind::Water);
    let wet = grid.cell_at(1, 0).unwrap();
    let water = grid.cell_at(1, 1).unwrap();
    grid.update();
    assert_eq!(grid.cell_at(1, 0), Some(water));
    assert_eq!(grid.cell_at(1, 1), Some(wet));
    assert_eq!(count(&grid, MaterialKind::WetSand), 1);
    assert_eq!(count(&grid, MaterialKind::Water), 1);
    assert_eq!(count(&grid, MaterialKind::Clay), 7);
}

#[test]
fn wet_sand_sinks_into_water_that_just_arrived() {
    let mut grid = Grid::new(2, 2);
    put(&mut grid, 0, 0, MaterialKind::Water);
    put(&mut grid, 1, 0, MaterialKind::WetSand);
    put(&mut grid, 0, 1, MaterialKind::Clay);
    grid.update();
    assert_eq!(kind_at(&grid, 0, 0), MaterialKind::Empty);
    assert_eq!(kind_at(&grid, 1, 0), MaterialKind::Water);
    assert_eq!(kind_at(&grid, 1, 1), MaterialKind::WetSand);
    assert_eq!(kind_at(&grid, 0, 1), MaterialKind::Clay);
    assert!(grid.was_moved(1, 1));
}

#[test]
fn lone_fire_lives_thirty_ticks() {
    for _ in 0..20 {
        let mut grid = Grid::new(9, 40);
        put(&mut grid, 4, 39, MaterialKind::Fire);
        for tick in 1..30u64 {
            grid.update();
            let fires = count(&grid, MaterialKind::Fire);
            assert!(fires <= 1);
            for y in 0..40 {
                for x in 0..9 {
                    let cell = grid.cell_at(x, y).unwrap();
                    if cell.kind == MaterialKind::Fire {
                        assert_eq!(cell.age, tick);
                        assert_eq!(cell.max_age, 30);
                    }
                }
            }
        }
        grid.update();
        assert_eq!(count(&grid, MaterialKind::Fire), 0);
    }
}

#[test]
fn enclosed_fire_burns_out_in_place() {
    let mut grid = Grid::new(3, 3);
    grid.place_element(1, 1, MaterialKind::Clay, 2);
    grid.place_element(1, 1, MaterialKind::Empty, 0);
    put(&mut grid, 1, 1, MaterialKind::Fire);
    for tick in 1..30u64 {
        grid.update();
        let centre = grid.cell_at(1, 1).unwrap();
        if centre.kind == MaterialKind::Fire {
            assert_eq!(centre.age, tick);
        } else {
            assert_eq!(centre.kind, MaterialKind::Smoke);
            return;
        }
    }
    grid.update();
    assert_ne!(kind_at(&grid, 1, 1), MaterialKind::Fire);
}

#[test]
fn fire_turns_sand_to_glass_and_water_to_steam() {
    let mut grid = Grid::new(3, 2);
    put(&mut grid, 0, 1, MaterialKind::Sand);
    put(&mut grid, 2, 1, MaterialKind::Water);
    for x in 0..3 {
        put(&mut grid, x, 0, MaterialKind::Clay);
    }
    put(&mut grid, 1, 1, MaterialKind::Fire);
    grid.update();
    assert_eq!(count(&grid, MaterialKind::Sand), 0);
    assert_eq!(count(&grid, MaterialKind::Water) + count(&grid, MaterialKind::WetSand), 0);
}

#[test]
fn glass_is_inert_and_does_not_age() {
    let mut grid = Grid::new(3, 3);
    put(&mut grid, 1, 0, MaterialKind::Glass);
    let glass = grid.cell_at(1, 0).unwrap();
    for _ in 0..100 {
        grid.update();
    }
    assert_eq!(grid.cell_at(1, 0), Some(glass));
}

#[test]
fn steam_rises_and_then_expires() {
    let mut grid = Grid::new(5, 5);
    put(&mut grid, 2, 4, MaterialKind::Steam);
    for tick in 1..200u64 {
        grid.update();
        assert_eq!(count(&grid, MaterialKind::Steam), 1);
        assert_eq!(occupied(&grid), 1);
        if tick >= 4 {
            assert_eq!(row_count(&grid, 0, MaterialKind::Steam), 1);
        }
    }
    grid.update();
    assert_eq!(occupied(&grid), 0);
}

#[test]
fn smoke_is_dispatched_once_per_tick() {
    let mut grid = Grid::new(7, 1);
    put(&mut grid, 0, 0, MaterialKind::Smoke);
    for tick in 1..50u64 {
        grid.update();
        assert_eq!(count(&grid, MaterialKind::Smoke), 1);
        for x in 0..7 {
            let cell = grid.cell_at(x, 0).unwrap();
            if cell.kind == MaterialKind::Smoke {
                assert_eq!(cell.age, tick);
            }
        }
    }
}

#[test]
fn colours_travel_with_the_material() {
    let mut grid = Grid::new(1, 4);
    put(&mut grid, 0, 0, MaterialKind::Sand);
    let tint = grid.cell_at(0, 0).unwrap().tint;
    for _ in 0..5 {
        grid.update();
    }
    assert_eq!(
        grid.cell_at(0, 3),
        Some(Cell { kind: MaterialKind::Sand, tint, age: 0, max_age: 0 })
    );
}

#[test]
fn scan_is_row_major_left_to_right() {
    let mut grid = Grid::new(3, 2);
    put(&mut grid, 0, 0, MaterialKind::Sand);
    put(&mut grid, 2, 0, MaterialKind::Sand);
    put(&mut grid, 0, 1, MaterialKind::Clay);
    put(&mut grid, 2, 1, MaterialKind::Clay);
    let first = grid.cell_at(0, 0).unwrap();
    let second = grid.cell_at(2, 0).unwrap();
    grid.update();
    assert_eq!(grid.cell_at(1, 1), Some(first));
    assert_eq!(grid.cell_at(0, 0), Some(Cell::new_empty()));
    assert_eq!(grid.cell_at(2, 0), Some(second));
}

#[test]
fn no_cell_is_landed_on_twice() {
    let mut grid = Grid::new(3, 3);
    put(&mut grid, 0, 0, MaterialKind::Sand);
    put(&mut grid, 1, 0, MaterialKind::Sand);
    put(&mut grid, 2, 0, MaterialKind::Sand);
    put(&mut grid, 0, 1, MaterialKind::Clay);
    put(&mut grid, 2, 1, MaterialKind::Clay);
    grid.update();
    assert_eq!(count(&grid, MaterialKind::Sand), 3);
    assert_eq!(kind_at(&grid, 1, 1), MaterialKind::Sand);
    assert!(grid.was_moved(1, 1));
    assert_eq!(row_count(&grid, 0, MaterialKind::Sand), 2);
    assert_eq!(kind_at(&grid, 0, 0), MaterialKind::Empty);
}

#[test]
fn mass_drops_only_when_a_cell_expires() {
    let mut grid = Grid::new(6, 6);
    put(&mut grid, 1, 5, MaterialKind::Steam);
    put(&mut grid, 4, 5, MaterialKind::Smoke);
    put(&mut grid, 2, 2, MaterialKind::Sand);
    for tick in 1..=400u64 {
        grid.update();
        let expected = if tick < 200 {
            3
        } else if tick < 400 {
            2
        } else {
            1
        };
        assert_eq!(occupied(&grid), expected);
    }
    assert_eq!(count(&grid, MaterialKind::Sand), 1);
}

#[test]
fn fixed_draws_decide_the_diagonal() {
    let mut right_first = Draw::still();
    right_first.fall = [(1, 1), (-1, 1)];
    for (draw, landing) in [(Draw::still(), 0), (right_first, 2)] {
        let mut grid = Grid::new(3, 3);
        put(&mut grid, 1, 0, MaterialKind::Sand);
        put(&mut grid, 1, 1, MaterialKind::Clay);
        let sand = grid.cell_at(1, 0).unwrap();
        grid.update_with(&draw);
        assert_eq!(grid.cell_at(landing, 1), Some(sand));
        assert_eq!(occupied(&grid), 2);
        grid.update_with(&draw);
        assert_eq!(grid.cell_at(landing, 2), Some(sand));
    }
}

#[test]
fn fixed_draws_make_fire_repeatable() {
    let mut draw = Draw::still();
    draw.roll = 99;
    draw.pick = 0;
    draw.smoke_tint = 950;
    let mut grid = Grid::new(3, 3);
    put(&mut grid, 1, 1, MaterialKind::Fire);
    let fire = grid.cell_at(1, 1).unwrap();
    let smoke = Cell { kind: MaterialKind::Smoke, tint: 950, age: 0, max_age: 400 };

    grid.update_with(&draw);
    assert_eq!(grid.cell_at(0, 0), Some(smoke));
    assert_eq!(grid.cell_at(1, 0), Some(Cell { age: 1, ..fire }));
    assert_eq!(occupied(&grid), 2);

    grid.update_with(&draw);
    assert_eq!(grid.cell_at(0, 0), Some(smoke));
    assert_eq!(grid.cell_at(2, 0), Some(Cell { age: 2, ..fire }));
    assert_eq!(occupied(&grid), 2);
}

#[test]
fn fixed_draws_spread_water_one_way() {
    let mut grid = Grid::new(5, 1);
    put(&mut grid, 4, 0, MaterialKind::Water);
    let water = grid.cell_at(4, 0).unwrap();
    for step in 1..=4 {
        grid.update_with(&Draw::still());
        assert_eq!(grid.cell_at(4 - step, 0), Some(water));
        assert_eq!(occupied(&grid), 1);
    }
    grid.update_with(&Draw::still());
    assert_eq!(grid.cell_at(1, 0), Some(water));
}

#[test]
fn moving_right_along_the_scan_is_not_repeated() {
    let mut draw = Draw::still();
    draw.side = [(1, 0), (-1, 0)];
    let mut grid = Grid::new(5, 1);
    put(&mut grid, 0, 0, MaterialKind::Water);
    grid.update_with(&draw);
    assert_eq!(kind_at(&grid, 1, 0), MaterialKind::Water);
    assert_eq!(occupied(&grid), 1);
    assert!(grid.was_moved(1, 0));
    grid.update_with(&draw);
    assert_eq!(kind_at(&grid, 2, 0), MaterialKind::Water);
}
