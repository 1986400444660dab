use conway::vector::Vector;
use conway::world::{Cell, World, WorldError, CHANCE_SCALE};
use rand::rngs::StdRng;
use rand::SeedableRng;

fn at(x: i32, y: i32) -> Vector {
    Vector { x, y }
}

fn world_with(width: i32, height: i32, live: &[(i32, i32)]) -> World {
    let live: Vec<Vector> = live.iter().map(|&(x, y)| at(x, y)).collect();
    World::with_live_cells(&at(width, height), &live).unwrap()
}

fn live_cells(world: &World) -> Vec<(i32, i32)> {
    let size = world.size();
    let mut found = Vec::new();
    for x in 0..size.x {
        for y in 0..size.y {
            if world.is_alive(&at(x, y)) {
                found.push((x, y));
            }
        }
    }
    found
}

#[test]
fn out_of_bounds_takes_the_lower_corner_in_and_the_upper_corner_out() {
    let min = at(0, 0);
    let max = at(4, 3);
    assert!(!at(0, 0).out_of_bounds(&min, &max));
    assert!(!at(3, 2).out_of_bounds(&min, &max));
    assert!(at(4, 2).out_of_bounds(&min, &max));
    assert!(at(3, 3).out_of_bounds(&min, &max));
    assert!(at(-1, 0).out_of_bounds(&min, &max));
    assert!(at(0, -1).out_of_bounds(&min, &max));
    assert!(at(i32::MAX, i32::MAX).out_of_bounds(&min, &max));
    assert!(at(i32::MIN, 1).out_of_bounds(&min, &max));
}

#[test]
fn vectors_compare_by_coordinate() {
    assert_eq!(at(2, 5), at(2, 5));
    assert_ne!(at(2, 5), at(5, 2));
}

#[test]
fn construction_sets_the_counters() {
    let world = world_with(6, 4, &[(1, 1)]);
    assert_eq!(world.size(), at(6, 4));
    assert_eq!(world.frames(), 0);
    assert!(!world.changed());
    assert_eq!(live_cells(&world), vec![(1, 1)]);
}

#[test]
fn listed_positions_off_the_grid_are_passed_over() {
    let world = world_with(3, 3, &[(-1, 0), (3, 0), (0, 3), (2, 2), (7, 7)]);
    assert_eq!(live_cells(&world), vec![(2, 2)]);
}

#[test]
fn a_position_listed_twice_is_one_live_cell() {
    let world = world_with(3, 3, &[(1, 1), (1, 1)]);
    assert_eq!(live_cells(&world), vec![(1, 1)]);
}

#[test]
fn nothing_is_alive_off_the_grid() {
    let world = world_with(2, 2, &[(0, 0), (1, 0), (0, 1), (1, 1)]);
    assert!(world.is_alive(&at(1, 1)));
    assert!(!world.is_alive(&at(2, 1)));
    assert!(!world.is_alive(&at(1, 2)));
    assert!(!world.is_alive(&at(-1, 0)));
    assert!(!world.is_alive(&at(0, -1)));
    assert!(!world.is_alive(&at(i32::MAX, i32::MAX)));
}

#[test]
fn zero_width_is_refused() {
    assert!(matches!(
        World::with_live_cells(&at(0, 3), &vec![]),
        Err(WorldError::InvalidDimensions)
    ));
    let mut rng = StdRng::seed_from_u64(1);
    assert!(matches!(
        World::new(&at(0, 3), 500_000, &mut rng),
        Err(WorldError::InvalidDimensions)
    ));
}

#[test]
fn zero_height_is_refused() {
    assert!(matches!(
        World::with_live_cells(&at(3, 0), &vec![]),
        Err(WorldError::InvalidDimensions)
    ));
    let mut rng = StdRng::seed_from_u64(1);
    assert!(matches!(
        World::new(&at(3, 0), 500_000, &mut rng),
        Err(WorldError::InvalidDimensions)
    ));
}

#[test]
fn negative_sizes_are_refused() {
    let mut rng = StdRng::seed_from_u64(1);
    assert!(matches!(
        World::new(&at(-1, 5), 500_000, &mut rng),
        Err(WorldError::InvalidDimensions)
    ));
    assert!(matches!(
        World::new(&at(5, -1), 500_000, &mut rng),
        Err(WorldError::InvalidDimensions)
    ));
    assert!(matches!(
        World::new(&at(i32::MIN, i32::MIN), 500_000, &mut rng),
        Err(WorldError::InvalidDimensions)
    ));
    assert!(matches!(
        World::with_live_cells(&at(-4, -4), &vec![at(0, 0)]),
        Err(WorldError::InvalidDimensions)
    ));
}

#[test]
fn seeded_world_has_the_size_asked_for() {
    let mut rng = StdRng::seed_from_u64(7);
    let world = World::new(&at(9, 5), 500_000, &mut rng).unwrap();
    assert_eq!(world.size(), at(9, 5));
    assert_eq!(world.frames(), 0);
    assert!(!world.changed());
    let text = world.draw_world();
    assert_eq!(text.lines().count(), 5);
    assert!(text.lines().all(|line| line.chars().count() == 9));
}

#[test]
fn chance_of_zero_leaves_every_cell_dead() {
    let mut rng = StdRng::seed_from_u64(3);
    let world = World::new(&at(8, 6), 0, &mut rng).unwrap();
    assert!(live_cells(&world).is_empty());
}

#[test]
fn full_chance_brings_every_cell_to_life() {
    let mut rng = StdRng::seed_from_u64(3);
    let world = World::new(&at(8, 6), CHANCE_SCALE, &mut rng).unwrap();
    assert_eq!(live_cells(&world).len(), 48);
    let mut rng = StdRng::seed_from_u64(3);
    let world = World::new(&at(8, 6), u32::MAX, &mut rng).unwrap();
    assert_eq!(live_cells(&world).len(), 48);
}

#[test]
fn half_chance_gives_a_mixed_world() {
    let mut rng = StdRng::seed_from_u64(11);
    let world = World::new(&at(40, 40), 500_000, &mut rng).unwrap();
    let alive = live_cells(&world).len();
    assert!(alive > 400, "too few live cells: {}", alive);
    assert!(alive < 1200, "too many live cells: {}", alive);
}

#[test]
fn same_seed_gives_the_same_world() {
    let mut first = StdRng::seed_from_u64(2024);
    let mut second = StdRng::seed_from_u64(2024);
    let a = World::new(&at(20, 10), 300_000, &mut first).unwrap();
    let b = World::new(&at(20, 10), 300_000, &mut second).unwrap();
    assert_eq!(a.draw_world(), b.draw_world());
}

#[test]
fn a_draw_below_the_chance_gives_life() {
    let here = at(3, 4);
    assert_eq!(Cell::from_draw(here, 0, 1), Cell { alive: true, coordinate: here });
    assert_eq!(Cell::from_draw(here, 499_999, 500_000), Cell { alive: true, coordinate: here });
    assert_eq!(Cell::from_draw(here, 500_000, 500_000), Cell { alive: false, coordinate: here });
    assert_eq!(Cell::from_draw(here, 0, 0), Cell { alive: false, coordinate: here });
    assert_eq!(
        Cell::from_draw(here, 999_999, CHANCE_SCALE),
        Cell { alive: true, coordinate: here }
    );
}

#[test]
fn block_is_stable() {
    let mut world = world_with(4, 4, &[(1, 1), (2, 1), (1, 2), (2, 2)]);
    let before = world.draw_world();
    world.tick();
    assert!(!world.changed());
    assert_eq!(world.draw_world(), before);
    assert_eq!(before, "    \n ## \n ## \n    \n");
    assert_eq!(world.frames(), 1);
    world.tick();
    assert!(!world.changed());
    assert_eq!(world.draw_world(), before);
    assert_eq!(world.frames(), 2);
}

#[test]
fn block_in_a_corner_is_stable() {
    let mut world = world_with(5, 6, &[(0, 0), (1, 0), (0, 1), (1, 1)]);
    world.tick();
    assert!(!world.changed());
    assert_eq!(live_cells(&world), vec![(0, 0), (0, 1), (1, 0), (1, 1)]);
}

#[test]
fn blinker_oscillates() {
    let mut world = world_with(5, 5, &[(1, 2), (2, 2), (3, 2)]);
    assert_eq!(world.draw_world(), "     \n     \n ### \n     \n     \n");

    world.tick();
    assert!(world.changed());
    assert_eq!(live_cells(&world), vec![(2, 1), (2, 2), (2, 3)]);
    assert_eq!(world.draw_world(), "     \n  #  \n  #  \n  #  \n     \n");

    world.tick();
    assert!(world.changed());
    assert_eq!(live_cells(&world), vec![(1, 2), (2, 2), (3, 2)]);
    assert_eq!(world.draw_world(), "     \n     \n ### \n     \n     \n");
    assert_eq!(world.frames(), 2);
}

#[test]
fn lone_cell_dies() {
    let mut world = world_with(5, 5, &[(2, 2)]);
    world.tick();
    assert!(world.changed());
    assert!(live_cells(&world).is_empty());
    world.tick();
    assert!(!world.changed());
    assert!(live_cells(&world).is_empty());
}

#[test]
fn cell_with_one_neighbour_dies() {
    let mut world = world_with(5, 5, &[(2, 2), (3, 3)]);
    world.tick();
    assert!(live_cells(&world).is_empty());
}

#[test]
fn crowded_cell_dies() {
    // The centre has four live neighbours.
    let mut world = world_with(5, 5, &[(2, 2), (1, 2), (3, 2), (2, 1), (2, 3)]);
    world.tick();
    assert!(!world.is_alive(&at(2, 2)));
    assert!(world.changed());
}

#[test]
fn cell_with_eight_neighbours_dies() {
    let all: Vec<(i32, i32)> = (0..3).flat_map(|x| (0..3).map(move |y| (x, y))).collect();
    let mut world = world_with(3, 3, &all);
    world.tick();
    assert_eq!(live_cells(&world), vec![(0, 0), (0, 2), (2, 0), (2, 2)]);
}

#[test]
fn live_cell_with_two_or_three_neighbours_survives() {
    let mut two = world_with(5, 5, &[(2, 2), (1, 1), (3, 3)]);
    two.tick();
    assert!(two.is_alive(&at(2, 2)));
    let mut three = world_with(5, 5, &[(2, 2), (1, 1), (3, 3), (1, 3)]);
    three.tick();
    assert!(three.is_alive(&at(2, 2)));
}

#[test]
fn dead_cell_with_three_neighbours_is_born() {
    let mut world = world_with(5, 5, &[(1, 1), (3, 1), (2, 3)]);
    assert!(!world.is_alive(&at(2, 2)));
    world.tick();
    assert!(world.is_alive(&at(2, 2)));
    assert_eq!(live_cells(&world), vec![(2, 2)]);
}

#[test]
fn dead_cell_with_two_neighbours_stays_dead() {
    let mut world = world_with(5, 5, &[(1, 1), (3, 1)]);
    world.tick();
    assert!(!world.is_alive(&at(2, 2)));
}

#[test]
fn dead_cell_with_four_neighbours_stays_dead() {
    let mut world = world_with(5, 5, &[(1, 1), (3, 1), (1, 3), (3, 3)]);
    world.tick();
    assert!(!world.is_alive(&at(2, 2)));
}

#[test]
fn corner_cell_counts_only_what_is_on_the_grid() {
    // Every cell of the far edges is alive; a wrapping count would give the
    // corner five neighbours. It has none, and dies.
    let mut live = vec![(0, 0)];
    for i in 0..6 {
        live.push((5, i));
        live.push((i, 5));
    }
    let mut world = world_with(6, 6, &live);
    let corner = Cell { alive: true, coordinate: at(0, 0) };
    assert!(!corner.determine_next_state(&world));
    world.tick();
    assert!(!world.is_alive(&at(0, 0)));
}

#[test]
fn corner_cell_with_its_three_neighbours_survives() {
    let mut world = world_with(4, 3, &[(0, 0), (1, 0), (0, 1), (1, 1)]);
    let corner = Cell { alive: true, coordinate: at(0, 0) };
    assert!(corner.determine_next_state(&world));
    world.tick();
    assert!(world.is_alive(&at(0, 0)));
}

#[test]
fn dead_corner_is_born_from_its_three_neighbours() {
    let mut world = world_with(4, 3, &[(1, 0), (0, 1), (1, 1)]);
    world.tick();
    assert!(world.is_alive(&at(0, 0)));
}

#[test]
fn every_corner_and_edge_keeps_to_the_grid() {
    let all: Vec<(i32, i32)> = (0..4).flat_map(|x| (0..3).map(move |y| (x, y))).collect();
    let mut world = world_with(4, 3, &all);
    world.tick();
    // Corners have three neighbours and live; every other cell has five or
    // eight and dies.
    assert_eq!(live_cells(&world), vec![(0, 0), (0, 2), (3, 0), (3, 2)]);
}

#[test]
fn next_state_reads_the_cell_it_is_asked_about() {
    let world = world_with(5, 5, &[(1, 1), (3, 1), (2, 3)]);
    let dead = Cell { alive: false, coordinate: at(2, 2) };
    let alive = Cell { alive: true, coordinate: at(2, 2) };
    assert!(dead.determine_next_state(&world));
    assert!(alive.determine_next_state(&world));
    let elsewhere = Cell { alive: true, coordinate: at(0, 4) };
    assert!(!elsewhere.determine_next_state(&world));
}

#[test]
fn next_state_far_from_the_grid_is_dead() {
    let world = world_with(2, 2, &[(0, 0), (1, 0), (0, 1), (1, 1)]);
    for coordinate in [
        at(i32::MAX, i32::MAX),
        at(i32::MIN, i32::MIN),
        at(i32::MAX, 0),
        at(0, i32::MIN),
        at(100, 100),
    ] {
        assert!(!Cell { alive: true, coordinate }.determine_next_state(&world));
        assert!(!Cell { alive: false, coordinate }.determine_next_state(&world));
    }
}

#[test]
fn next_state_just_outside_counts_the_cells_inside() {
    // (2, 0) is off a two-by-two grid but touches (1, 0) and (1, 1).
    let world = world_with(2, 2, &[(0, 0), (1, 0), (0, 1), (1, 1)]);
    assert!(Cell { alive: true, coordinate: at(2, 0) }.determine_next_state(&world));
    assert!(!Cell { alive: false, coordinate: at(2, 0) }.determine_next_state(&world));
    // (-1, -1) touches (0, 0) only.
    assert!(!Cell { alive: true, coordinate: at(-1, -1) }.determine_next_state(&world));
}

#[test]
fn one_by_one_world_works() {
    let mut world = world_with(1, 1, &[(0, 0)]);
    assert_eq!(world.draw_world(), "#\n");
    world.tick();
    assert!(world.changed());
    assert_eq!(world.draw_world(), " \n");
    world.tick();
    assert!(!world.changed());
    assert_eq!(world.frames(), 2);
    assert_eq!(world.size(), at(1, 1));
}

#[test]
fn one_row_world_works() {
    let mut world = world_with(5, 1, &[(1, 0), (2, 0), (3, 0)]);
    world.tick();
    assert_eq!(world.draw_world(), "  #  \n");
}

#[test]
fn neighbours_are_read_from_the_generation_before() {
    // Updated in place, column by column, the row of three would lose (0, 1)
    // first and then take (1, 1) for a cell with one neighbour.
    let mut world = world_with(3, 3, &[(0, 1), (1, 1), (2, 1)]);
    world.tick();
    assert_eq!(live_cells(&world), vec![(1, 0), (1, 1), (1, 2)]);
}

#[test]
fn glider_moves_one_cell_diagonally_in_four_generations() {
    let mut world = world_with(8, 8, &[(1, 0), (2, 1), (0, 2), (1, 2), (2, 2)]);
    for _ in 0..4 {
        world.tick();
        assert!(world.changed());
    }
    assert_eq!(live_cells(&world), vec![(1, 3), (2, 1), (2, 3), (3, 2), (3, 3)]);
    assert_eq!(world.frames(), 4);
}

#[test]
fn equal_states_have_equal_futures() {
    // A blinker beside a block: after two generations the cells are back
    // where they started, but the counter and the report have moved on.
    let live = [(1, 2), (2, 2), (3, 2), (6, 6), (6, 7), (7, 6), (7, 7)];
    let mut fresh = world_with(9, 9, &live);
    let mut seasoned = world_with(9, 9, &live);
    seasoned.tick();
    seasoned.tick();
    assert_eq!(seasoned.draw_world(), fresh.draw_world());
    assert_ne!(seasoned.frames(), fresh.frames());
    assert_ne!(seasoned.changed(), fresh.changed());

    for _ in 0..6 {
        assert_eq!(seasoned.tick(), fresh.tick());
        assert_eq!(seasoned.draw_world(), fresh.draw_world());
        assert_eq!(seasoned.changed(), fresh.changed());
    }
}

#[test]
fn the_same_world_advances_the_same_way_every_time() {
    let live = [(1, 0), (2, 1), (0, 2), (1, 2), (2, 2), (5, 5), (5, 6), (6, 5)];
    let mut reference = world_with(9, 9, &live);
    reference.tick();
    let expected = reference.draw_world();
    for _ in 0..5 {
        let mut again = world_with(9, 9, &live);
        again.tick();
        assert_eq!(again.draw_world(), expected);
        assert_eq!(again.changed(), reference.changed());
        assert_eq!(again.frames(), 1);
    }
}

#[test]
fn size_survives_any_number_of_generations() {
    let mut rng = StdRng::seed_from_u64(5);
    let mut world = World::new(&at(7, 11), 400_000, &mut rng).unwrap();
    for generation in 1..=25u64 {
        world.tick();
        assert_eq!(world.size(), at(7, 11));
        assert_eq!(world.frames(), generation);
        assert_eq!(world.draw_world().chars().count(), 11 * 8);
    }
}

#[test]
fn frames_count_every_generation_even_when_nothing_changes() {
    let mut world = world_with(3, 3, &[]);
    for generation in 1..=5u64 {
        world.tick();
        assert!(!world.changed());
        assert_eq!(world.frames(), generation);
    }
}

#[test]
fn changed_is_reset_when_the_world_settles() {
    let mut world = world_with(4, 4, &[(1, 1), (2, 1), (1, 2)]);
    world.tick();
    assert!(world.changed());
    assert_eq!(live_cells(&world), vec![(1, 1), (1, 2), (2, 1), (2, 2)]);
    world.tick();
    assert!(!world.changed());
}

#[test]
fn text_has_one_line_per_row_and_one_glyph_per_cell() {
    let world = world_with(3, 2, &[(0, 0), (2, 0), (1, 1)]);
    let text = world.draw_world();
    assert_eq!(text, "# #\n # \n");
    let lines: Vec<&str> = text.lines().collect();
    assert_eq!(lines.len(), 2);
    for (y, line) in lines.iter().enumerate() {
        let glyphs: Vec<char> = line.chars().collect();
        assert_eq!(glyphs.len(), 3);
        for (x, glyph) in glyphs.iter().enumerate() {
            let alive = world.is_alive(&at(x as i32, y as i32));
            assert_eq!(*glyph, if alive { '#' } else { ' ' });
        }
    }
}

#[test]
fn drawing_does_not_change_the_world() {
    let world = world_with(4, 4, &[(1, 1), (2, 2)]);
    let first = world.draw_world();
    let second = world.draw_world();
    assert_eq!(first, second);
    assert_eq!(world.frames(), 0);
    assert_eq!(live_cells(&world), vec![(1, 1), (2, 2)]);
}

#[test]
fn tick_reports_what_changed_says() {
    let mut world = world_with(5, 5, &[(1, 2), (2, 2), (3, 2)]);
    assert!(world.tick());
    assert!(world.changed());
    let mut still = world_with(4, 4, &[(1, 1), (2, 1), (1, 2), (2, 2)]);
    assert!(!still.tick());
    assert!(!still.changed());
    let mut empty = world_with(2, 2, &[]);
    assert!(!empty.tick());
}
