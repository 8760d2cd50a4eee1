use clife::chunks::AtomicChunksIter;
use clife::world::{compute_step, World};

fn grid_cells(w: &World) -> Vec<bool> {
    let mut out = Vec::new();
    for y in 0..w.height() {
        for x in 0..w.width() {
            out.push(w.cell_is_alive(x, y));
        }
    }
    out
}

fn world_from_text(lines: &[&str]) -> World {
    let bytes: Vec<Vec<u8>> = lines.iter().map(|l| l.as_bytes().to_vec()).collect();
    let rows = World::decode_rows(&bytes).unwrap();
    World::from_parts(rows).unwrap()
}

#[test]
fn transition_rule_births_and_survivals() {
    // Row 0 holds three live cells in a 5x5 grid with a dead border
    // thick enough that wraparound plays no part for the probed cells.
    let w = world_from_text(&["_###_", "_____", "_____", "_____", "_____"]);
    let mut next = World::new_empty(5, 5);
    next.become_next_step(&w);
    // The middle of the three (alive, 2 neighbors) survives.
    assert!(next.cell_is_alive(2, 0));
    // The dead cell below the middle has exactly 3 live neighbors: born.
    assert!(next.cell_is_alive(2, 1));
    // The ends (alive, 1 neighbor) die.
    assert!(!next.cell_is_alive(1, 0));
    assert!(!next.cell_is_alive(3, 0));
    // A dead cell with 2 live neighbors stays dead.
    assert!(!next.cell_is_alive(1, 2));
}

#[test]
fn overcrowded_cells_die() {
    // Every cell of an all-live grid has 8 live neighbors: all die.
    let w = world_from_text(&["###", "###", "###"]);
    let mut next = World::new_empty(3, 3);
    next.become_next_step(&w);
    for y in 0..3 {
        for x in 0..3 {
            assert!(!next.cell_is_alive(x, y));
        }
    }
}

#[test]
fn blinker_oscillates_with_period_two() {
    let vertical = world_from_text(&["_____", "__#__", "__#__", "__#__", "_____"]);
    let horizontal = world_from_text(&["_____", "_____", "_###_", "_____", "_____"]);

    let mut first = World::new_empty(5, 5);
    first.become_next_step(&vertical);
    assert_eq!(grid_cells(&first), grid_cells(&horizontal));

    let mut second = World::new_empty(5, 5);
    second.become_next_step(&first);
    assert_eq!(grid_cells(&second), grid_cells(&vertical));
}

#[test]
fn step_result_is_independent_of_worker_count() {
    let source = World::new_random(16, 11);
    let mut with_one = World::new_empty(16, 11);
    compute_step(&mut with_one, &source, 1);
    let mut with_three = World::new_empty(16, 11);
    compute_step(&mut with_three, &source, 3);
    let mut with_eight = World::new_empty(16, 11);
    compute_step(&mut with_eight, &source, 8);
    assert_eq!(grid_cells(&with_one), grid_cells(&with_three));
    assert_eq!(grid_cells(&with_one), grid_cells(&with_eight));
}

#[test]
fn partitioner_tiles_the_range_exactly() {
    let mut it = AtomicChunksIter::new(10, 3);
    let mut claimed: Vec<(usize, usize, usize)> = Vec::new();
    while let Some(claim) = it.next() {
        claimed.push(claim);
    }
    assert_eq!(claimed, vec![(0, 0, 3), (1, 3, 6), (2, 6, 9), (3, 9, 10)]);
    // Exhausted: further calls keep yielding nothing.
    assert!(it.next().is_none());
}

#[test]
fn partitioner_step_larger_than_range() {
    let mut it = AtomicChunksIter::new(4, 100);
    assert_eq!(it.next(), Some((0, 0, 4)));
    assert_eq!(it.next(), None);
}

#[test]
fn partitioner_empty_range_yields_no_claims() {
    let mut it = AtomicChunksIter::new(0, 5);
    assert_eq!(it.next(), None);
}

#[test]
fn rows_enumerates_one_chunk_per_row() {
    let w = World::new_empty(3, 2);
    let mut it = w.rows();
    assert_eq!(it.next(), Some((0, 0, 3)));
    assert_eq!(it.next(), Some((1, 3, 6)));
    assert_eq!(it.next(), None);
    // A fresh call yields a fresh, independent enumeration.
    let mut again = w.rows();
    assert_eq!(again.next(), Some((0, 0, 3)));
}
