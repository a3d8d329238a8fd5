use particle_sim::cell::Cell;
use particle_sim::chance::{random_tint, Draw, TINT_HIGH, TINT_LOW, TINT_PLAIN};
use particle_sim::material::MaterialKind;

const ALL_KINDS: [MaterialKind; 9] = [
    MaterialKind::Empty,
    MaterialKind::Sand,
    MaterialKind::Clay,
    MaterialKind::Water,
    MaterialKind::WetSand,
    MaterialKind::Fire,
    MaterialKind::Glass,
    MaterialKind::Smoke,
    MaterialKind::Steam,
];

#[test]
fn lifetimes_follow_the_catalog() {
    assert_eq!(MaterialKind::Empty.max_age(), 0);
    assert_eq!(MaterialKind::Sand.max_age(), 0);
    assert_eq!(MaterialKind::Clay.max_age(), 0);
    assert_eq!(MaterialKind::Water.max_age(), 0);
    assert_eq!(MaterialKind::WetSand.max_age(), 0);
    assert_eq!(MaterialKind::Fire.max_age(), 30);
    assert_eq!(MaterialKind::Glass.max_age(), 30);
    assert_eq!(MaterialKind::Smoke.max_age(), 400);
    assert_eq!(MaterialKind::Steam.max_age(), 200);
}

#[test]
fn empty_cell_is_plain_and_immortal() {
    let cell = Cell::new_empty();
    assert_eq!(cell.kind, MaterialKind::Empty);
    assert_eq!(cell.tint, TINT_PLAIN);
    assert_eq!(cell.age, 0);
    assert_eq!(cell.max_age, 0);
    assert_eq!(Cell::make(MaterialKind::Empty), cell);
}

#[test]
fn named_constructors_make_their_material() {
    let made = [
        (Cell::new_sand(), MaterialKind::Sand, 0),
        (Cell::new_clay(), MaterialKind::Clay, 0),
        (Cell::new_water(), MaterialKind::Water, 0),
        (Cell::new_wet_sand(), MaterialKind::WetSand, 0),
        (Cell::new_fire(), MaterialKind::Fire, 30),
        (Cell::new_glass(), MaterialKind::Glass, 30),
        (Cell::new_smoke(), MaterialKind::Smoke, 400),
        (Cell::new_steam(), MaterialKind::Steam, 200),
    ];
    for (cell, kind, max_age) in made {
        assert_eq!(cell.kind, kind);
        assert_eq!(cell.age, 0);
        assert_eq!(cell.max_age, max_age);
        assert!(TINT_LOW <= cell.tint && cell.tint < TINT_HIGH);
    }
}

#[test]
fn make_gives_every_kind_its_lifetime() {
    for kind in ALL_KINDS {
        let cell = Cell::make(kind);
        assert_eq!(cell.kind, kind);
        assert_eq!(cell.age, 0);
        assert_eq!(cell.max_age, kind.max_age());
        assert!(TINT_LOW <= cell.tint && cell.tint < TINT_HIGH);
    }
}

#[test]
fn with_tint_accepts_exactly_the_range() {
    assert_eq!(Cell::with_tint(MaterialKind::Sand, 899), None);
    assert_eq!(Cell::with_tint(MaterialKind::Sand, 1100), None);
    assert_eq!(
        Cell::with_tint(MaterialKind::Sand, 900),
        Some(Cell { kind: MaterialKind::Sand, tint: 900, age: 0, max_age: 0 })
    );
    assert_eq!(
        Cell::with_tint(MaterialKind::Fire, 1099),
        Some(Cell { kind: MaterialKind::Fire, tint: 1099, age: 0, max_age: 30 })
    );
    assert_eq!(Cell::with_tint(MaterialKind::Empty, 950), Some(Cell::new_empty()));
}

#[test]
fn tints_vary_between_cells() {
    let first = Cell::new_sand().tint;
    let mut differs = false;
    for _ in 0..200 {
        let tint = random_tint();
        assert!(TINT_LOW <= tint && tint < TINT_HIGH);
        if tint != first {
            differs = true;
        }
    }
    assert!(differs);
}

#[test]
fn ageing_counts_up_to_the_lifetime() {
    let mut cell = Cell::with_tint(MaterialKind::Fire, 1000).unwrap();
    for expected in 1..30 {
        cell = cell.aged();
        assert_eq!(cell.kind, MaterialKind::Fire);
        assert_eq!(cell.age, expected);
        assert_eq!(cell.max_age, 30);
        assert_eq!(cell.tint, 1000);
    }
    assert_eq!(cell.aged(), Cell::new_empty());
}

#[test]
fn still_draw_is_valid_and_plain() {
    let draw = Draw::still();
    assert!(draw.is_valid());
    assert_eq!(draw.fall, [(-1, 1), (1, 1)]);
    assert_eq!(draw.rise, [(0, -1), (-1, -1), (1, -1)]);
    assert_eq!(draw.side, [(-1, 0), (1, 0)]);
    assert_eq!(draw.roll, 0);
    assert_eq!(draw.tints, [TINT_PLAIN; 9]);
    assert_eq!(draw.smoke_tint, TINT_PLAIN);
}

#[test]
fn invalid_draws_are_recognised() {
    let mut draw = Draw::still();
    draw.fall = [(-1, 1), (-1, 1)];
    assert!(!draw.is_valid());

    let mut draw = Draw::still();
    draw.side = [(0, 1), (1, 0)];
    assert!(!draw.is_valid());

    let mut draw = Draw::still();
    draw.rise = [(0, -1), (0, -1), (1, -1)];
    assert!(!draw.is_valid());

    let mut draw = Draw::still();
    draw.roll = 100;
    assert!(!draw.is_valid());

    let mut draw = Draw::still();
    draw.tints[4] = 1100;
    assert!(!draw.is_valid());

    let mut draw = Draw::still();
    draw.smoke_tint = 899;
    assert!(!draw.is_valid());

    let mut draw = Draw::still();
    draw.fall = [(1, 1), (-1, 1)];
    draw.rise = [(1, -1), (0, -1), (-1, -1)];
    draw.side = [(1, 0), (-1, 0)];
    draw.roll = 99;
    draw.pick = 1000;
    assert!(draw.is_valid());
}

#[test]
fn random_draws_are_valid() {
    for kind in ALL_KINDS {
        for around in 1..=9 {
            for _ in 0..20 {
                let draw = Draw::random_for(kind, around);
                assert!(draw.is_valid());
                assert!(draw.pick < around);
            }
        }
    }
}

#[test]
fn random_draws_shuffle_both_ways() {
    let mut left_first = 0;
    let mut right_first = 0;
    for _ in 0..400 {
        let draw = Draw::random_for(MaterialKind::Sand, 1);
        if draw.fall[0] == (-1, 1) {
            left_first += 1;
        } else {
            right_first += 1;
        }
    }
    assert!(left_first > 0);
    assert!(right_first > 0);
}

#[test]
fn random_draws_reach_every_rise_order() {
    let mut firsts = [0usize; 3];
    for _ in 0..600 {
        let draw = Draw::random_for(MaterialKind::Smoke, 1);
        match draw.rise[0] {
            (0, -1) => firsts[0] += 1,
            (-1, -1) => firsts[1] += 1,
            (1, -1) => firsts[2] += 1,
            other => panic!("unexpected offset {:?}", other),
        }
    }
    assert!(firsts[0] > 0 && firsts[1] > 0 && firsts[2] > 0);
}

#[test]
fn random_draws_read_only_what_the_rule_needs() {
    let sand = Draw::random_for(MaterialKind::Sand, 5);
    assert_eq!(sand.rise, Draw::still().rise);
    assert_eq!(sand.side, Draw::still().side);
    assert_eq!(sand.roll, 0);
    assert_eq!(sand.tints, [TINT_PLAIN; 9]);
    let clay = Draw::random_for(MaterialKind::Clay, 5);
    assert_eq!(clay.fall, Draw::still().fall);
    assert_eq!(clay.roll, 0);
}

#[test]
fn fire_rolls_are_percentages_and_sometimes_spawn() {
    let mut spawned = 0;
    for _ in 0..5000 {
        let draw = Draw::random_for(MaterialKind::Fire, 9);
        assert!(draw.roll < 100);
        if draw.roll > 98 {
            spawned += 1;
        }
    }
    assert!(spawned > 0);
    assert!(spawned < 500);
}
