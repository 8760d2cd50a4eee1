use clife::error::Error;
use clife::world::World;

fn grid_cells(w: &World) -> Vec<bool> {
    let mut out = Vec::new();
    for y in 0..w.height() {
        for x in 0..w.width() {
            out.push(w.cell_is_alive(x, y));
        }
    }
    out
}

#[test]
fn new_empty_all_dead() {
    let w = World::new_empty(3, 3);
    assert_eq!(w.width(), 3);
    assert_eq!(w.height(), 3);
    assert_eq!(w.cell_count(), 9);
    for y in 0..3 {
        for x in 0..3 {
            assert!(!w.cell_is_alive(x, y));
        }
    }
}

#[test]
fn new_random_has_requested_dimensions() {
    let w = World::new_random(7, 4);
    assert_eq!(w.width(), 7);
    assert_eq!(w.height(), 4);
    assert_eq!(w.cell_count(), 28);
}

#[test]
fn from_parts_rectangular_succeeds() {
    let parts = vec![vec![false; 3], vec![false; 3], vec![false; 3]];
    let w = World::from_parts(parts).unwrap();
    assert_eq!(w.width(), 3);
    assert_eq!(w.height(), 3);
    for y in 0..3 {
        for x in 0..3 {
            assert!(!w.cell_is_alive(x, y));
        }
    }
}

#[test]
fn from_parts_keeps_cell_values() {
    let parts = vec![vec![true, false], vec![false, true]];
    let w = World::from_parts(parts).unwrap();
    assert!(w.cell_is_alive(0, 0));
    assert!(!w.cell_is_alive(1, 0));
    assert!(!w.cell_is_alive(0, 1));
    assert!(w.cell_is_alive(1, 1));
}

#[test]
fn from_parts_empty_list_fails() {
    let parts: Vec<Vec<bool>> = vec![];
    assert_eq!(World::from_parts(parts).unwrap_err(), Error::WorldBadParts);
}

#[test]
fn from_parts_empty_first_row_fails() {
    let parts: Vec<Vec<bool>> = vec![vec![]];
    assert_eq!(World::from_parts(parts).unwrap_err(), Error::WorldBadParts);
}

#[test]
fn from_parts_ragged_rows_fail() {
    let parts = vec![vec![true, false], vec![true]];
    assert_eq!(World::from_parts(parts).unwrap_err(), Error::WorldBadParts);
}

#[test]
fn decode_rows_reads_live_and_dead() {
    let lines = vec![b"_#_".to_vec(), b"#_#".to_vec()];
    let rows = World::decode_rows(&lines).unwrap();
    assert_eq!(rows, vec![vec![false, true, false], vec![true, false, true]]);
}

#[test]
fn decode_rows_rejects_unknown_byte() {
    let lines = vec![b"_#_".to_vec(), b"#x#".to_vec()];
    assert_eq!(World::decode_rows(&lines).unwrap_err(), Error::WorldBadParts);
}

#[test]
fn neighbor_count_single_live_center() {
    // On a 3x3 torus every cell neighbors every other cell, so one live
    // cell at (1,1) gives every other cell exactly one live neighbor
    // and the live cell itself zero.
    let parts = vec![
        vec![false, false, false],
        vec![false, true, false],
        vec![false, false, false],
    ];
    let w = World::from_parts(parts).unwrap();
    for y in 0..3 {
        for x in 0..3 {
            let expected = if x == 1 && y == 1 { 0 } else { 1 };
            assert_eq!(w.number_of_live_neighbors(x, y), expected);
        }
    }
}

#[test]
fn neighbor_count_wraps_at_all_corners() {
    // A live cell in each corner of a 4x4 grid: by wraparound the four
    // corners are mutually adjacent, so each corner sees the other 3.
    let mut parts = vec![vec![false; 4]; 4];
    parts[0][0] = true;
    parts[0][3] = true;
    parts[3][0] = true;
    parts[3][3] = true;
    let w = World::from_parts(parts).unwrap();
    for &(x, y) in &[(0, 0), (3, 0), (0, 3), (3, 3)] {
        let n = w.number_of_live_neighbors(x, y);
        assert_eq!(n, 3);
        assert!(n <= 8);
    }
    // An interior cell touches exactly one corner diagonally.
    assert_eq!(w.number_of_live_neighbors(2, 2), 1);
}

#[test]
fn neighbor_count_never_exceeds_eight() {
    let parts = vec![vec![true; 5]; 5];
    let w = World::from_parts(parts).unwrap();
    for y in 0..5 {
        for x in 0..5 {
            assert_eq!(w.number_of_live_neighbors(x, y), 8);
        }
    }
}
