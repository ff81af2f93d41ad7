use game_of_life::control::{LifeError, MessageState, Pattern};
use game_of_life::gameoflife::{Cell, Universe};

fn empty_grid(width: u32, height: u32) -> Universe {
    Universe::new(width, height, 0, false).unwrap()
}

fn alive_coords(u: &Universe) -> Vec<(u32, u32)> {
    let mut out = Vec::new();
    for row in 0..u.height {
        for col in 0..u.width {
            if u.cells[(row * u.width + col) as usize] == Cell::Alive {
                out.push((row, col));
            }
        }
    }
    out
}

#[test]
fn neighbor_wrap_diagonal() {
    let mut u = empty_grid(3, 3);
    u.set_cells(&[(0, 0)]);
    assert_eq!(u.live_neighbor_count(2, 2), 1);
    // On a toroidal 3x3 grid every cell is a neighbor of every other cell,
    // so even the "far" corner sees the live cell once.
    assert_eq!(u.live_neighbor_count(1, 1), 1);
}

#[test]
fn neighbor_count_is_zero_beyond_adjacency() {
    let mut u = empty_grid(4, 4);
    u.set_cells(&[(0, 0)]);
    assert_eq!(u.live_neighbor_count(3, 3), 1);
    assert_eq!(u.live_neighbor_count(2, 2), 0);
}

#[test]
fn neighbor_wrap_one_by_one() {
    let mut u = empty_grid(1, 1);
    u.set_cells(&[(0, 0)]);
    assert_eq!(u.live_neighbor_count(0, 0), 8);
}

#[test]
fn rule_alive_one_neighbor_dies() {
    let mut u = empty_grid(6, 6);
    u.set_cells(&[(2, 2), (2, 3)]);
    u.tick();
    assert_eq!(alive_coords(&u), Vec::<(u32, u32)>::new());
}

#[test]
fn rule_dead_three_neighbors_born() {
    let mut u = empty_grid(6, 6);
    u.set_cells(&[(1, 1), (1, 2), (1, 3)]);
    u.tick();
    let alive = alive_coords(&u);
    assert!(alive.contains(&(2, 2)));
    assert!(alive.contains(&(0, 2)));
    assert!(alive.contains(&(1, 2)));
    assert_eq!(alive.len(), 3);
}

#[test]
fn rule_alive_four_neighbors_dies() {
    let mut u = empty_grid(7, 7);
    u.set_cells(&[(2, 2), (1, 1), (1, 3), (3, 1), (3, 3)]);
    assert_eq!(u.live_neighbor_count(2, 2), 4);
    u.tick();
    assert!(!alive_coords(&u).contains(&(2, 2)));
}

#[test]
fn rule_alive_two_or_three_neighbors_survives() {
    let mut u = empty_grid(8, 8);
    // A block is a still life: every live cell has exactly 3 live neighbors.
    u.set_cells(&[(2, 2), (2, 3), (3, 2), (3, 3)]);
    u.tick();
    assert_eq!(alive_coords(&u), vec![(2, 2), (2, 3), (3, 2), (3, 3)]);
}

#[test]
fn glider_translates_one_diagonal_step_in_four_generations() {
    let mut u = empty_grid(10, 10);
    assert_eq!(u.apply_message(MessageState::Pattern(Pattern::Spaceship)), Ok(()));
    assert_eq!(alive_coords(&u), vec![(1, 2), (2, 3), (3, 1), (3, 2), (3, 3)]);
    u.tick();
    u.tick();
    u.tick();
    u.tick();
    assert_eq!(alive_coords(&u), vec![(2, 3), (3, 4), (4, 2), (4, 3), (4, 4)]);
}

#[test]
fn clear_is_idempotent_and_kills_every_neighbor_count() {
    let mut u = Universe::default();
    u.clear();
    let first = u.cells.clone();
    let started_after_first = u.started;
    u.clear();
    assert_eq!(u.cells, first);
    assert_eq!(u.started, started_after_first);
    assert!(u.cells.iter().all(|c| *c == Cell::Dead));
    for row in 0..u.height {
        for col in 0..u.width {
            assert_eq!(u.live_neighbor_count(row, col), 0);
        }
    }
}

#[test]
fn pause_then_start_only_toggles_running() {
    let mut u = Universe::default();
    let before = u.cells.clone();
    assert_eq!(u.apply_message(MessageState::Pause), Ok(()));
    assert_eq!(u.apply_message(MessageState::Start), Ok(()));
    assert_eq!(u.cells, before);
    assert!(u.started);
    assert_eq!(u.width, 64);
    assert_eq!(u.height, 64);
    assert_eq!(u.interval, 50);
}

#[test]
fn two_queued_commands_drain_one_per_cycle_in_order() {
    let (sender, receiver) = std::sync::mpsc::channel();
    sender.send(MessageState::Pattern(Pattern::Spaceship)).unwrap();
    sender.send(MessageState::Start).unwrap();

    let mut u = empty_grid(10, 10);

    // First cycle: only the stamp is applied; the grid is still paused.
    let out = u.update(receiver.try_recv().ok());
    assert!(out.stepped.is_none());
    assert!(out.rejected.is_none());
    assert!(!u.started);
    assert_eq!(alive_coords(&u), vec![(1, 2), (2, 3), (3, 1), (3, 2), (3, 3)]);

    // Second cycle: the start command is applied and a generation runs.
    let out = u.update(receiver.try_recv().ok());
    assert!(out.stepped.is_some());
    assert!(u.started);
    assert_eq!(alive_coords(&u), vec![(2, 1), (2, 3), (3, 2), (3, 3), (4, 2)]);
}

#[test]
fn default_grid_matches_parity_pattern() {
    let u = Universe::default();
    assert_eq!(u.width, 64);
    assert_eq!(u.height, 64);
    assert_eq!(u.interval, 50);
    assert!(!u.started);
    assert_eq!(u.cells.len(), 4096);
    assert_eq!(u.cells[7], Cell::Alive);
    assert_eq!(u.cells[9], Cell::Dead);
    for i in 0..4096usize {
        let expected = if i % 2 == 0 || i % 7 == 0 { Cell::Alive } else { Cell::Dead };
        assert_eq!(u.cells[i], expected);
    }
}

#[test]
fn snapshot_renders_one_glyph_per_cell_and_one_line_per_row() {
    let mut u = empty_grid(2, 2);
    u.set_cells(&[(0, 0)]);
    assert_eq!(u.render(), "\u{25fc}\u{25fb}\n\u{25fb}\u{25fb}\n");
}

#[test]
fn zero_dimension_is_rejected_at_construction() {
    assert_eq!(Universe::new(0, 3, 50, false).unwrap_err(), LifeError::ConfigurationInvalid);
    assert_eq!(Universe::new(3, 0, 50, false).unwrap_err(), LifeError::ConfigurationInvalid);
    let u = Universe::new(3, 3, 50, false).unwrap();
    assert_eq!(u.cells.len(), 9);
    assert!(u.cells.iter().all(|c| *c == Cell::Dead));
}

#[test]
fn out_of_bounds_stamp_is_rejected_as_a_no_op() {
    let mut u = empty_grid(3, 3);
    let before = u.cells.clone();
    assert_eq!(
        u.apply_message(MessageState::Pattern(Pattern::Spaceship)),
        Err(LifeError::OutOfBoundsStamp)
    );
    assert_eq!(u.cells, before);
    assert!(!u.started);
}

#[test]
fn paused_cycle_publishes_one_snapshot_and_keeps_state() {
    let mut u = empty_grid(4, 4);
    let before = u.cells.clone();
    let out = u.update(None);
    assert_eq!(out.snapshot, u.render());
    assert!(out.stepped.is_none());
    assert!(out.rejected.is_none());
    assert_eq!(u.cells, before);
}

#[test]
fn running_cycle_publishes_the_new_generation() {
    let mut u = Universe::new(6, 6, 0, true).unwrap();
    u.set_cells(&[(1, 1), (1, 2), (1, 3)]);
    let before = u.render();
    let out = u.update(None);
    assert_eq!(out.snapshot, before);
    let second = out.stepped.expect("a running cycle publishes twice");
    assert_eq!(second, u.render());
    assert_eq!(alive_coords(&u), vec![(0, 2), (1, 2), (2, 2)]);
}

#[test]
fn rejected_stamp_is_reported_by_the_cycle() {
    let mut u = empty_grid(2, 2);
    let out = u.update(Some(MessageState::Pattern(Pattern::Spaceship)));
    assert_eq!(out.rejected, Some(LifeError::OutOfBoundsStamp));
    assert!(u.cells.iter().all(|c| *c == Cell::Dead));
}
