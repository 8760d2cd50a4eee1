use clife::pipeline::Coordinator;
use clife::world::{compute_step, World};

fn grid_cells(w: &World) -> Vec<bool> {
    let mut out = Vec::new();
    for y in 0..w.height() {
        for x in 0..w.width() {
            out.push(w.cell_is_alive(x, y));
        }
    }
    out
}

fn glider_parts() -> Vec<Vec<bool>> {
    let lines: [&str; 6] = ["______", "__#___", "___#__", "_###__", "______", "______"];
    lines
        .iter()
        .map(|l| l.bytes().map(|b| b == b'#').collect())
        .collect()
}

#[test]
fn coordinator_reproduces_the_sequential_generations() {
    // The render side of the pipeline must observe exactly the
    // generations a sequential loop would produce, in order.
    let initial = World::from_parts(glider_parts()).unwrap();
    let reference = World::from_parts(glider_parts()).unwrap();

    let mut expected: Vec<Vec<bool>> = Vec::new();
    let mut current = reference;
    for _ in 0..4 {
        let mut next = World::new_empty(6, 6);
        compute_step(&mut next, &current, 1);
        expected.push(grid_cells(&next));
        current = next;
    }

    let mut coordinator = Coordinator::new(&initial);
    // The render side displays each grid and hands the buffer back.
    let mut returned = initial;
    for step in 0..4 {
        let out = coordinator.advance(returned);
        assert_eq!(grid_cells(&out), expected[step]);
        returned = out;
    }
}

#[test]
fn coordinator_first_frame_is_one_step_from_initial() {
    let initial = World::from_parts(glider_parts()).unwrap();
    let mut direct = World::new_empty(6, 6);
    compute_step(&mut direct, &initial, 8);

    let mut coordinator = Coordinator::new(&initial);
    let out = coordinator.advance(initial);
    assert_eq!(grid_cells(&out), grid_cells(&direct));
}
