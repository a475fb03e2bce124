use life_game::cell::Cell;
use life_game::rule::Rule;
use life_game::universe::{Universe, UniverseError, STARTER_SIZE};

fn small(width: u32, height: u32, alive: &[(u32, u32)]) -> Universe {
    let mut u = Universe::new(width, height).unwrap();
    u.set_cells(alive).unwrap();
    u
}

fn alive_set(u: &Universe) -> Vec<(u32, u32)> {
    let mut out = Vec::new();
    for r in 0..u.height() {
        for c in 0..u.width() {
            if u.get_cells()[(r * u.width() + c) as usize] == Cell::Alive {
                out.push((r, c));
            }
        }
    }
    out
}

fn live_count(u: &Universe) -> u32 {
    u.get_cells().iter().filter(|c| **c == Cell::Alive).count() as u32
}

fn age_at(u: &Universe, r: u32, c: u32) -> u8 {
    u.cell_ages()[(r * u.width() + c) as usize]
}

fn input_spaceship() -> Universe {
    let mut universe = Universe::new(64, 64).unwrap();
    universe.set_width(6).unwrap();
    universe.set_height(6).unwrap();
    universe.set_cells(&[(1, 2), (2, 3), (3, 1), (3, 2), (3, 3)]).unwrap();
    universe
}

fn expected_spaceship() -> Universe {
    let mut universe = Universe::new(64, 64).unwrap();
    universe.set_width(6).unwrap();
    universe.set_height(6).unwrap();
    universe.set_cells(&[(2, 1), (2, 3), (3, 2), (3, 3), (4, 2)]).unwrap();
    universe
}

#[test]
fn test_update() {
    let mut input_universe = input_spaceship();
    let expected_universe = expected_spaceship();
    input_universe.update();
    assert_eq!(&input_universe.get_cells(), &expected_universe.get_cells());
}

#[test]
fn glider_moves_after_one_step() {
    let mut u = small(6, 6, &[(1, 2), (2, 3), (3, 1), (3, 2), (3, 3)]);
    u.update();
    assert_eq!(alive_set(&u), vec![(2, 1), (2, 3), (3, 2), (3, 3), (4, 2)]);
    assert_eq!(u.population(), 5);
    assert_eq!(u.generation(), 1);
}

#[test]
fn new_universe_is_empty_with_default_rule() {
    let u = Universe::new(4, 3).unwrap();
    assert_eq!(u.width(), 4);
    assert_eq!(u.height(), 3);
    assert_eq!(u.cells().len(), 12);
    assert!(u.cells().iter().all(|c| *c == Cell::Dead));
    assert!(u.cell_ages().iter().all(|a| *a == 0));
    assert_eq!(u.population(), 0);
    assert_eq!(u.generation(), 0);
    let r = u.rule();
    for n in 0..9 {
        assert_eq!(r.birth[n], n == 3);
        assert_eq!(r.survival[n], n == 2 || n == 3);
    }
}

#[test]
fn new_rejects_bad_dimensions() {
    assert_eq!(Universe::new(0, 5).err(), Some(UniverseError::InvalidDimension));
    assert_eq!(Universe::new(5, 0).err(), Some(UniverseError::InvalidDimension));
    assert_eq!(Universe::new(65536, 65536).err(), Some(UniverseError::InvalidDimension));
    assert!(Universe::new(1, 1).is_ok());
}

#[test]
fn population_tracks_live_cells() {
    let mut u = small(8, 8, &[(1, 2), (2, 3), (3, 1), (3, 2), (3, 3)]);
    assert_eq!(u.population(), live_count(&u));
    for _ in 0..10 {
        u.update();
        assert_eq!(u.population(), live_count(&u));
    }
    u.set_cells(&[(0, 0), (0, 0), (7, 7)]).unwrap();
    assert_eq!(u.population(), live_count(&u));
    u.toggle_cell(0, 0).unwrap();
    assert_eq!(u.population(), live_count(&u));
    let draws: Vec<u32> = (0..64).map(|i| (i * 37) % 100).collect();
    u.random(40, &draws).unwrap();
    assert_eq!(u.population(), live_count(&u));
    u.reset();
    assert_eq!(u.population(), 0);
    assert_eq!(live_count(&u), 0);
}

#[test]
fn set_cells_keeps_other_cells_and_counts_new_ones() {
    let mut u = small(3, 3, &[(0, 0)]);
    u.set_cells(&[(0, 0), (1, 1)]).unwrap();
    assert_eq!(alive_set(&u), vec![(0, 0), (1, 1)]);
    assert_eq!(u.population(), 2);
}

#[test]
fn set_cells_out_of_range_changes_nothing() {
    let mut u = small(3, 3, &[(0, 0)]);
    let before = u.get_cells().to_vec();
    assert_eq!(u.set_cells(&[(1, 1), (3, 0)]), Err(UniverseError::OutOfRangeCoordinate));
    assert_eq!(u.set_cells(&[(0, 3)]), Err(UniverseError::OutOfRangeCoordinate));
    assert_eq!(u.get_cells(), &before[..]);
    assert_eq!(u.population(), 1);
}

#[test]
fn generation_counts_steps_only() {
    let mut u = small(5, 5, &[(2, 1), (2, 2), (2, 3)]);
    u.update();
    u.update();
    u.update();
    assert_eq!(u.generation(), 3);
    u.set_cells(&[(0, 0)]).unwrap();
    u.toggle_cell(4, 4).unwrap();
    u.set_rule(&[3], &[2, 3]);
    u.set_width(6).unwrap();
    u.set_height(7).unwrap();
    let _ = u.render();
    assert_eq!(u.generation(), 3);
    u.update();
    assert_eq!(u.generation(), 4);
    u.reset();
    assert_eq!(u.generation(), 0);
    u.update();
    u.update();
    let draws = vec![0u32; 42];
    u.random(50, &draws).unwrap();
    assert_eq!(u.generation(), 0);
}

#[test]
fn corner_counts_opposite_corner() {
    let u = small(5, 4, &[(3, 4)]);
    assert_eq!(u.live_neighbor_count(0, 0), 1);
    let v = small(5, 4, &[(0, 0)]);
    assert_eq!(v.live_neighbor_count(3, 4), 1);
    assert_eq!(v.live_neighbor_count(0, 4), 1);
    assert_eq!(v.live_neighbor_count(3, 0), 1);
    assert_eq!(v.live_neighbor_count(2, 2), 0);
}

#[test]
fn edges_wrap_to_opposite_edges() {
    let u = small(5, 5, &[(4, 2), (2, 4)]);
    assert_eq!(u.live_neighbor_count(0, 2), 1);
    assert_eq!(u.live_neighbor_count(2, 0), 1);
    assert_eq!(u.live_neighbor_count(0, 0), 0);
    let full = small(3, 3, &[(0, 0), (0, 1), (0, 2), (1, 0), (1, 1), (1, 2), (2, 0), (2, 1), (2, 2)]);
    assert_eq!(full.live_neighbor_count(0, 0), 8);
}

#[test]
fn blinker_oscillates_under_default_rule() {
    let mut u = small(5, 5, &[(2, 1), (2, 2), (2, 3)]);
    u.update();
    assert_eq!(alive_set(&u), vec![(1, 2), (2, 2), (3, 2)]);
    u.update();
    assert_eq!(alive_set(&u), vec![(2, 1), (2, 2), (2, 3)]);
}

#[test]
fn block_is_still_and_lonely_cells_die() {
    let mut u = small(6, 6, &[(1, 1), (1, 2), (2, 1), (2, 2)]);
    u.update();
    assert_eq!(alive_set(&u), vec![(1, 1), (1, 2), (2, 1), (2, 2)]);
    let mut v = small(6, 6, &[(3, 3)]);
    v.update();
    assert!(alive_set(&v).is_empty());
    assert_eq!(v.population(), 0);
}

#[test]
fn overcrowded_cell_dies_and_three_give_birth() {
    // the middle cell has four live neighbours; the cell at (0, 0) has three
    let mut u = small(7, 7, &[(2, 2), (1, 1), (1, 3), (3, 1), (3, 3)]);
    u.update();
    assert_eq!(u.get_cells()[(2 * 7 + 2) as usize], Cell::Dead);
    let mut v = small(7, 7, &[(0, 1), (1, 0), (1, 1)]);
    v.update();
    assert_eq!(v.get_cells()[0], Cell::Alive);
}

#[test]
fn set_rule_changes_next_step() {
    // B36/S23: six neighbours now give birth
    let mut u = small(7, 7, &[(1, 1), (1, 2), (1, 3), (3, 1), (3, 2), (3, 3)]);
    u.set_rule(&[3, 6, 9, 200], &[2, 3]);
    let r = u.rule();
    assert!(r.birth[3] && r.birth[6]);
    assert_eq!(r.birth.iter().filter(|b| **b).count(), 2);
    assert_eq!(r.survival.iter().filter(|b| **b).count(), 2);
    u.update();
    assert_eq!(u.get_cells()[(2 * 7 + 2) as usize], Cell::Alive);
    let mut v = small(7, 7, &[(1, 1), (1, 2), (1, 3), (3, 1), (3, 2), (3, 3)]);
    v.update();
    assert_eq!(v.get_cells()[(2 * 7 + 2) as usize], Cell::Dead);
}

#[test]
fn empty_rule_kills_everything() {
    let mut u = small(4, 4, &[(1, 1), (1, 2), (2, 1), (2, 2)]);
    u.set_rule(&[], &[]);
    u.update();
    assert_eq!(u.population(), 0);
    assert!(u.cell_ages().iter().all(|a| *a == 0));
}

#[test]
fn rule_from_counts_ignores_large_counts() {
    let r = Rule::from_counts(&[1, 8, 9, 255], &[0]);
    let expected_birth = [false, true, false, false, false, false, false, false, true];
    assert_eq!(r.birth, expected_birth);
    assert_eq!(r.survival, [true, false, false, false, false, false, false, false, false]);
    let c = Rule::conway();
    assert_eq!(c.next(Cell::Alive, 1), Cell::Dead);
    assert_eq!(c.next(Cell::Alive, 2), Cell::Alive);
    assert_eq!(c.next(Cell::Alive, 3), Cell::Alive);
    assert_eq!(c.next(Cell::Alive, 4), Cell::Dead);
    assert_eq!(c.next(Cell::Dead, 3), Cell::Alive);
    assert_eq!(c.next(Cell::Dead, 2), Cell::Dead);
}

#[test]
fn render_shows_rows() {
    let u = small(3, 2, &[(0, 1), (1, 2)]);
    assert_eq!(u.render(), "◻◼◻\n◻◻◼\n");
}

#[test]
fn render_twice_is_the_same_and_changes_nothing() {
    let mut u = small(6, 6, &[(1, 2), (2, 3), (3, 1), (3, 2), (3, 3)]);
    u.update();
    let first = u.render();
    let second = u.render();
    assert_eq!(first, second);
    assert_eq!(u.generation(), 1);
    assert_eq!(u.population(), 5);
    assert_eq!(first.lines().count(), 6);
}

#[test]
fn random_rejects_density_above_hundred() {
    let mut u = small(4, 4, &[(1, 1), (2, 3)]);
    u.update();
    let cells = u.get_cells().to_vec();
    let ages = u.cell_ages().to_vec();
    let draws = vec![0u32; 16];
    assert_eq!(u.random(150, &draws), Err(UniverseError::InvalidDensity));
    assert_eq!(u.random(101, &draws), Err(UniverseError::InvalidDensity));
    assert_eq!(u.get_cells(), &cells[..]);
    assert_eq!(u.cell_ages(), &ages[..]);
    assert_eq!(u.generation(), 1);
    assert_eq!(u.population(), live_count(&u));
}

#[test]
fn random_seeds_cells_below_density() {
    let mut u = small(3, 2, &[(0, 0), (1, 1)]);
    u.update();
    let draws = vec![10, 49, 50, 99, 0, 75];
    u.random(50, &draws).unwrap();
    assert_eq!(
        u.get_cells(),
        &[Cell::Alive, Cell::Alive, Cell::Dead, Cell::Dead, Cell::Alive, Cell::Dead][..]
    );
    assert_eq!(u.population(), 3);
    assert_eq!(u.generation(), 0);
    assert!(u.cell_ages().iter().all(|a| *a == 0));
    u.random(0, &draws).unwrap();
    assert_eq!(u.population(), 0);
    u.random(100, &draws).unwrap();
    assert_eq!(u.population(), 6);
}

#[test]
fn ages_grow_reset_and_restart() {
    let mut u = small(5, 5, &[(2, 1), (2, 2), (2, 3)]);
    u.update();
    assert_eq!(age_at(&u, 2, 2), 1);
    assert_eq!(age_at(&u, 2, 1), 0);
    assert_eq!(age_at(&u, 1, 2), 1);
    u.update();
    assert_eq!(age_at(&u, 2, 2), 2);
    assert_eq!(age_at(&u, 1, 2), 0);
    assert_eq!(age_at(&u, 2, 1), 1);
    u.update();
    assert_eq!(age_at(&u, 2, 2), 3);
}

#[test]
fn ages_saturate() {
    let mut u = small(4, 4, &[(1, 1), (1, 2), (2, 1), (2, 2)]);
    for _ in 0..300 {
        u.update();
    }
    assert_eq!(age_at(&u, 1, 1), 255);
    assert_eq!(age_at(&u, 0, 0), 0);
    assert_eq!(u.generation(), 300);
}

#[test]
fn toggle_flips_and_keeps_counts() {
    let mut u = small(3, 3, &[]);
    u.toggle_cell(1, 2).unwrap();
    assert_eq!(u.get_cells()[5], Cell::Alive);
    assert_eq!(u.population(), 1);
    u.toggle_cell(1, 2).unwrap();
    assert_eq!(u.get_cells()[5], Cell::Dead);
    assert_eq!(u.population(), 0);
    assert_eq!(u.toggle_cell(3, 0), Err(UniverseError::OutOfRangeCoordinate));
    assert_eq!(u.toggle_cell(0, 3), Err(UniverseError::OutOfRangeCoordinate));
}

#[test]
fn toggle_clears_age() {
    let mut u = small(4, 4, &[(1, 1), (1, 2), (2, 1), (2, 2)]);
    u.update();
    u.update();
    assert_eq!(age_at(&u, 1, 1), 2);
    u.toggle_cell(1, 1).unwrap();
    assert_eq!(age_at(&u, 1, 1), 0);
    u.toggle_cell(1, 1).unwrap();
    assert_eq!(age_at(&u, 1, 1), 0);
    assert_eq!(u.population(), 4);
}

#[test]
fn resize_clears_grid() {
    let mut u = small(4, 4, &[(1, 1), (2, 2)]);
    u.update();
    u.set_width(7).unwrap();
    assert_eq!(u.width(), 7);
    assert_eq!(u.height(), 4);
    assert_eq!(u.get_cells().len(), 28);
    assert_eq!(u.cell_ages().len(), 28);
    assert_eq!(u.population(), 0);
    assert_eq!(u.generation(), 1);
    u.set_cells(&[(3, 6)]).unwrap();
    u.set_height(2).unwrap();
    assert_eq!(u.get_cells().len(), 14);
    assert!(u.get_cells().iter().all(|c| *c == Cell::Dead));
}

#[test]
fn resize_rejects_bad_dimensions() {
    let mut u = small(4, 4, &[(1, 1)]);
    assert_eq!(u.set_width(0), Err(UniverseError::InvalidDimension));
    assert_eq!(u.set_height(0), Err(UniverseError::InvalidDimension));
    assert_eq!(u.set_width(u32::MAX), Err(UniverseError::InvalidDimension));
    assert_eq!(u.width(), 4);
    assert_eq!(u.height(), 4);
    assert_eq!(u.population(), 1);
}

#[test]
fn reset_clears_everything() {
    let mut u = small(5, 5, &[(2, 1), (2, 2), (2, 3)]);
    u.update();
    u.update();
    u.reset();
    assert!(u.get_cells().iter().all(|c| *c == Cell::Dead));
    assert!(u.cell_ages().iter().all(|a| *a == 0));
    assert_eq!(u.population(), 0);
    assert_eq!(u.generation(), 0);
    assert_eq!(u.width(), 5);
}

#[test]
fn starter_pattern() {
    let u = Universe::starter();
    assert_eq!(u.width(), STARTER_SIZE);
    assert_eq!(u.height(), 64);
    let expected = (0..64 * 64u32).filter(|i| i % 2 == 0 || i % 7 == 0).count() as u32;
    assert_eq!(u.population(), expected);
    assert_eq!(u.get_cells()[0], Cell::Alive);
    assert_eq!(u.get_cells()[1], Cell::Dead);
    assert_eq!(u.get_cells()[7], Cell::Alive);
    assert_eq!(u.get_cells()[9], Cell::Dead);
    assert_eq!(u.population(), live_count(&u));
}

#[test]
fn one_by_one_grid_counts_itself() {
    // on a single cell every offset lands on the cell itself
    let u = small(1, 1, &[(0, 0)]);
    assert_eq!(u.live_neighbor_count(0, 0), 8);
}

#[test]
fn cell_values() {
    assert_eq!(Cell::Alive.value(), 1);
    assert_eq!(Cell::Dead.value(), 0);
    assert!(Cell::Alive.is_alive());
    assert!(!Cell::Dead.is_alive());
}
