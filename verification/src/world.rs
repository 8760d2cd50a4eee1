//! The grid of cells and the step engine: construction, toroidal
//! neighbor counting, and the full B3/S23 step over a source grid into
//! a disjoint destination grid, driven by the work partitioner.

use vstd::prelude::*;

use crate::chunks::AtomicChunksIter;
use crate::error::Error;
use crate::model::{
    cell_at, grid_wf, neighbor_count, next_model, step_cell, wrap, GridModel,
};
use vstd::arithmetic::div_mod::lemma_fundamental_div_mod_converse;

verus! {

/// Number of workers the step engine dispatches by default.
pub const WORKER_COUNT: usize = 8;

/// Text encoding of a live cell: the byte '#'.
pub const LIVE_BYTE: u8 = 35;

/// Text encoding of a dead cell: the byte '_'.
pub const DEAD_BYTE: u8 = 95;

/// Relies on rand::random: an independent uniform draw; nothing is
/// promised of the value returned.
pub assume_specification<T>[ rand::random::<T> ]() -> (r: T)
    where
        rand::distributions::Standard: rand::distributions::Distribution<T>,
;

/// A grid of cells, row-major, with immutable dimensions.
#[derive(Debug)]
pub struct World {
    width: i32,
    height: i32,
    cells: Vec<bool>,
}

impl View for World {
    type V = GridModel;

    closed spec fn view(&self) -> GridModel {
        GridModel { width: self.width as int, height: self.height as int, cells: self.cells@ }
    }
}

/// Well-formed construction input: at least one row, a non-empty first
/// row, and every row of the same length as the first.
pub open spec fn parts_wf(parts: Seq<Vec<bool>>) -> bool {
    &&& parts.len() > 0
    &&& parts[0]@.len() > 0
    &&& forall|y: int| 0 <= y < parts.len() ==> #[trigger] parts[y]@.len() == parts[0]@.len()
}

/// A text row decodes iff every byte is `DEAD_BYTE` (dead) or `LIVE_BYTE` (alive).
pub open spec fn row_decodable(row: Seq<u8>) -> bool {
    forall|x: int| 0 <= x < row.len() ==> #[trigger] row[x] == DEAD_BYTE || row[x] == LIVE_BYTE
}

impl World {
    pub open spec fn wf(&self) -> bool {
        grid_wf(self@)
    }

    /// A grid of the given dimensions with every cell dead.
    pub fn new_empty(width: i32, height: i32) -> (w: World)
        requires
            1 <= width,
            1 <= height,
            width as int * height as int <= usize::MAX as int,
        ensures
            w.wf(),
            w@.width == width as int,
            w@.height == height as int,
            forall|i: int| 0 <= i < w@.cells.len() ==> !(#[trigger] w@.cells[i]),
    {
        let total: usize = (width as usize) * (height as usize);
        let mut cells: Vec<bool> = Vec::new();
        let mut i: usize = 0;
        while i < total
            invariant
                i <= total,
                cells@.len() == i,
                forall|j: int| 0 <= j < i ==> !(#[trigger] cells@[j]),
            decreases total - i,
        {
            cells.push(false);
            i += 1;
        }
        World { width, height, cells }
    }

    /// A grid of the given dimensions with every cell drawn uniformly at
    /// random. Nothing is promised of the cell values.
    pub fn new_random(width: i32, height: i32) -> (w: World)
        requires
            1 <= width,
            1 <= height,
            width as int * height as int <= usize::MAX as int,
        ensures
            w.wf(),
            w@.width == width as int,
            w@.height == height as int,
    {
        let total: usize = (width as usize) * (height as usize);
        let mut cells: Vec<bool> = Vec::new();
        let mut i: usize = 0;
        while i < total
            invariant
                i <= total,
                cells@.len() == i,
            decreases total - i,
        {
            cells.push(rand::random::<bool>());
            i += 1;
        }
        World { width, height, cells }
    }

    /// Build a grid from rows of booleans. Succeeds exactly on a
    /// non-empty rectangular input with non-empty rows; the row count
    /// becomes the height and the row length the width.
    pub fn from_parts(parts: Vec<Vec<bool>>) -> (r: Result<World, Error>)
        requires
            parts@.len() <= i32::MAX as int,
            parts@.len() > 0 ==> parts@[0]@.len() <= i32::MAX as int,
        ensures
            match r {
                Ok(w) => {
                    &&& parts_wf(parts@)
                    &&& w.wf()
                    &&& w@.height == parts@.len()
                    &&& w@.width == parts@[0]@.len()
                    &&& forall|y: int, x: int|
                        0 <= y < w@.height && 0 <= x < w@.width ==> cell_at(w@, x, y)
                            == parts@[y]@[x]
                },
                Err(e) => {
                    &&& e == Error::WorldBadParts
                    &&& !parts_wf(parts@)
                },
            },
    {
        let height_us: usize = parts.len();
        if height_us == 0 {
            return Err(Error::WorldBadParts);
        }
        let width_us: usize = parts[0].len();
        if width_us == 0 {
            return Err(Error::WorldBadParts);
        }
        let mut cells: Vec<bool> = Vec::new();
        let mut y: usize = 0;
        while y < height_us
            invariant
                y <= height_us,
                height_us == parts@.len(),
                width_us == parts@[0]@.len(),
                0 < width_us,
                width_us <= i32::MAX as int,
                height_us <= i32::MAX as int,
                forall|yy: int| 0 <= yy < y ==> #[trigger] parts@[yy]@.len() == width_us,
                cells@.len() == y * width_us,
                forall|j: int|
                    0 <= j < cells@.len() ==> #[trigger] cells@[j] == parts@[j / (
                    width_us as int)]@[j % (width_us as int)],
            decreases height_us - y,
        {
            let row = &parts[y];
            if row.len() != width_us {
                return Err(Error::WorldBadParts);
            }
            let mut x: usize = 0;
            while x < width_us
                invariant
                    x <= width_us,
                    y < height_us,
                    height_us == parts@.len(),
                    width_us == parts@[0]@.len(),
                    0 < width_us,
                    row == parts@[y as int],
                    row@.len() == width_us,
                    cells@.len() == y * width_us + x,
                    forall|j: int|
                        0 <= j < cells@.len() ==> #[trigger] cells@[j] == parts@[j / (
                        width_us as int)]@[j % (width_us as int)],
                decreases width_us - x,
            {
                proof {
                    lemma_fundamental_div_mod_converse(
                        y * width_us + x,
                        width_us as int,
                        y as int,
                        x as int,
                    );
                }
                cells.push(row[x]);
                x += 1;
            }
            proof {
                assert(y * width_us + width_us == (y + 1) * width_us) by (nonlinear_arith);
            }
            y += 1;
        }
        let ghost cs = cells@;
        proof {
            assert((height_us as int) * (width_us as int) == (width_us as int) * (
            height_us as int)) by (nonlinear_arith);
            assert forall|yy: int, xx: int|
                0 <= yy < height_us && 0 <= xx < width_us implies cs[yy * (width_us as int) + xx]
                == parts@[yy]@[xx] by {
                lemma_flat_index(xx, yy, width_us as int, height_us as int);
                let j = yy * (width_us as int) + xx;
                lemma_fundamental_div_mod_converse(j, width_us as int, yy, xx);
                assert(cs[j] == parts@[j / (width_us as int)]@[j % (width_us as int)]);
            }
        }
        let w = World { width: width_us as i32, height: height_us as i32, cells };
        proof {
            assert(w@.cells == cs);
            assert forall|yy: int, xx: int|
                0 <= yy < w@.height && 0 <= xx < w@.width implies cell_at(w@, xx, yy)
                == parts@[yy]@[xx] by {
                assert(cs[yy * (width_us as int) + xx] == parts@[yy]@[xx]);
            }
        }
        Ok(w)
    }

    /// Decode text rows: `DEAD_BYTE` is a dead cell, `LIVE_BYTE` a live one.
    /// Succeeds exactly when every byte of every row is one of the two,
    /// and then preserves the shape of the input row for row.
    pub fn decode_rows(lines: &Vec<Vec<u8>>) -> (r: Result<Vec<Vec<bool>>, Error>)
        ensures
            match r {
                Ok(rows) => {
                    &&& forall|y: int|
                        0 <= y < lines@.len() ==> row_decodable(#[trigger] lines@[y]@)
                    &&& rows@.len() == lines@.len()
                    &&& forall|y: int|
                        0 <= y < lines@.len() ==> #[trigger] rows@[y]@.len() == lines@[y]@.len()
                    &&& forall|y: int, x: int|
                        0 <= y < lines@.len() && 0 <= x < lines@[y]@.len()
                            ==> #[trigger] rows@[y]@[x] == (lines@[y]@[x] == LIVE_BYTE)
                },
                Err(e) => {
                    &&& e == Error::WorldBadParts
                    &&& exists|y: int|
                        0 <= y < lines@.len() && !row_decodable(#[trigger] lines@[y]@)
                },
            },
    {
        let mut rows: Vec<Vec<bool>> = Vec::new();
        let mut y: usize = 0;
        while y < lines.len()
            invariant
                y <= lines@.len(),
                rows@.len() == y,
                forall|yy: int| 0 <= yy < y ==> row_decodable(#[trigger] lines@[yy]@),
                forall|yy: int| 0 <= yy < y ==> #[trigger] rows@[yy]@.len() == lines@[yy]@.len(),
                forall|yy: int, xx: int|
                    0 <= yy < y && 0 <= xx < lines@[yy]@.len() ==> #[trigger] rows@[yy]@[xx] == (
                    lines@[yy]@[xx] == LIVE_BYTE),
            decreases lines@.len() - y,
        {
            let line = &lines[y];
            let mut row: Vec<bool> = Vec::new();
            let mut x: usize = 0;
            while x < line.len()
                invariant
                    x <= line@.len(),
                    line == lines@[y as int],
                    y < lines@.len(),
                    row@.len() == x,
                    forall|xx: int|
                        0 <= xx < x ==> #[trigger] line@[xx] == DEAD_BYTE || line@[xx] == LIVE_BYTE,
                    forall|xx: int| 0 <= xx < x ==> #[trigger] row@[xx] == (line@[xx] == LIVE_BYTE),
                decreases line@.len() - x,
            {
                let b = line[x];
                if b == LIVE_BYTE {
                    row.push(true);
                } else if b == DEAD_BYTE {
                    row.push(false);
                } else {
                    return Err(Error::WorldBadParts);
                }
                x += 1;
            }
            rows.push(row);
            y += 1;
        }
        Ok(rows)
    }

    /// Total number of cells, `width * height`.
    pub fn cell_count(&self) -> (n: usize)
        ensures
            n as int == self@.cells.len(),
    {
        self.cells.len()
    }

    pub fn width(&self) -> (r: i32)
        ensures
            r as int == self@.width,
    {
        self.width
    }

    pub fn height(&self) -> (r: i32)
        ensures
            r as int == self@.height,
    {
        self.height
    }

    /// Read one cell.
    pub fn cell_is_alive(&self, x: i32, y: i32) -> (r: bool)
        requires
            self.wf(),
            0 <= x < self@.width,
            0 <= y < self@.height,
        ensures
            r == cell_at(self@, x as int, y as int),
    {
        let n = self.cells.len();
        proof {
            lemma_flat_index(x as int, y as int, self@.width, self@.height);
        }
        self.cells[(y as usize) * (self.width as usize) + (x as usize)]
    }

    /// Count the live cells among the 8 toroidally wrapped neighbors of
    /// `(x, y)`. Wraparound means the count never misses an edge: the
    /// result always lies in [0, 8].
    pub fn number_of_live_neighbors(&self, x: i32, y: i32) -> (r: u8)
        requires
            self.wf(),
            0 <= x < self@.width,
            0 <= y < self@.height,
        ensures
            r as int == neighbor_count(self@, x as int, y as int),
            r <= 8,
    {
        let w = self.width;
        let h = self.height;
        let mut count: u8 = 0;
        if self.cell_is_alive(wrap_offset(x, -1, w), wrap_offset(y, -1, h)) {
            count += 1;
        }
        if self.cell_is_alive(wrap_offset(x, -1, w), wrap_offset(y, 0, h)) {
            count += 1;
        }
        if self.cell_is_alive(wrap_offset(x, -1, w), wrap_offset(y, 1, h)) {
            count += 1;
        }
        if self.cell_is_alive(wrap_offset(x, 0, w), wrap_offset(y, -1, h)) {
            count += 1;
        }
        if self.cell_is_alive(wrap_offset(x, 0, w), wrap_offset(y, 1, h)) {
            count += 1;
        }
        if self.cell_is_alive(wrap_offset(x, 1, w), wrap_offset(y, -1, h)) {
            count += 1;
        }
        if self.cell_is_alive(wrap_offset(x, 1, w), wrap_offset(y, 0, h)) {
            count += 1;
        }
        if self.cell_is_alive(wrap_offset(x, 1, w), wrap_offset(y, 1, h)) {
            count += 1;
        }
        count
    }

    /// Replace this grid's contents with the successor generation of
    /// `previous` under B3/S23, reading only from `previous`.
    pub fn become_next_step(&mut self, previous: &World)
        requires
            old(self).wf(),
            previous.wf(),
            old(self)@.width == previous@.width,
            old(self)@.height == previous@.height,
        ensures
            final(self).wf(),
            final(self)@ == next_model(previous@),
    {
        compute_step(self, previous, WORKER_COUNT);
    }

    /// A fresh claim cursor over this grid's cells, one row per chunk:
    /// the enumeration surface for the step engine and the renderer.
    /// Each call yields an independent enumeration starting at row 0.
    pub fn rows(&self) -> (it: AtomicChunksIter)
        requires
            self.wf(),
        ensures
            it.wf(),
            it.spec_len() == self@.cells.len(),
            it.spec_step() == self@.width,
            it.spec_cursor() == 0,
    {
        AtomicChunksIter::new(self.cells.len(), self.width as usize)
    }
}

/// Flat row-major index of `(x, y)` stays inside a `w` by `h` grid.
proof fn lemma_flat_index(x: int, y: int, w: int, h: int)
    requires
        0 <= x < w,
        0 <= y < h,
    ensures
        0 <= y * w + x < w * h,
        y * w >= 0,
{
    assert(0 <= y * w + x < w * h) by (nonlinear_arith)
        requires
            0 <= x < w,
            0 <= y < h,
    ;
    assert(y * w >= 0) by (nonlinear_arith)
        requires
            y >= 0,
            w >= 1,
    ;
}

/// Toroidal coordinate arithmetic: move by `delta` on an axis of extent
/// `n`, wrapping at both edges.
fn wrap_offset(i: i32, delta: i32, n: i32) -> (r: i32)
    requires
        1 <= n,
        0 <= i < n,
        -1 <= delta <= 1,
    ensures
        r as int == wrap(i as int, delta as int, n as int),
        0 <= r < n,
{
    let s: i64 = i as i64 + n as i64 + delta as i64;
    let r64: i64 = s % (n as i64);
    r64 as i32
}

/// One full step of the transition rule: every cell of `destination`
/// becomes the B3/S23 successor of the corresponding cell of `source`.
/// `worker_count` workers each drain the shared partitioner in turn;
/// the result is the same for every worker count, because each cell
/// depends only on the frozen `source`.
pub fn compute_step(destination: &mut World, source: &World, worker_count: usize)
    requires
        old(destination).wf(),
        source.wf(),
        old(destination)@.width == source@.width,
        old(destination)@.height == source@.height,
        worker_count >= 1,
    ensures
        final(destination).wf(),
        final(destination)@ == next_model(source@),
{
    let w: usize = source.width as usize;
    let total: usize = source.cells.len();
    let mut it = AtomicChunksIter::new(total, w);
    let mut worker: usize = 0;
    while worker < worker_count
        invariant
            worker <= worker_count,
            worker_count >= 1,
            it.wf(),
            it.spec_len() == total,
            it.spec_step() == w,
            source.wf(),
            destination.wf(),
            destination@.width == source@.width,
            destination@.height == source@.height,
            destination@.cells.len() == source@.cells.len(),
            total == source@.cells.len(),
            w as int == source@.width,
            worker >= 1 ==> it.exhausted(),
            forall|j: int|
                0 <= j < it.spec_cursor() ==> #[trigger] destination@.cells[j] == step_cell(
                    source@,
                    j,
                ),
        decreases worker_count - worker,
    {
        loop
            invariant
                it.wf(),
                it.spec_len() == total,
                it.spec_step() == w,
                source.wf(),
                destination.wf(),
                destination@.width == source@.width,
                destination@.height == source@.height,
                destination@.cells.len() == source@.cells.len(),
                total == source@.cells.len(),
                w as int == source@.width,
                forall|j: int|
                    0 <= j < it.spec_cursor() ==> #[trigger] destination@.cells[j] == step_cell(
                        source@,
                        j,
                    ),
            ensures
                it.wf(),
                it.spec_len() == total,
                it.spec_step() == w,
                it.exhausted(),
                destination.wf(),
                destination@.width == source@.width,
                destination@.height == source@.height,
                destination@.cells.len() == source@.cells.len(),
                forall|j: int|
                    0 <= j < it.spec_cursor() ==> #[trigger] destination@.cells[j] == step_cell(
                        source@,
                        j,
                    ),
            decreases it.spec_len() - it.spec_cursor(),
        {
            match it.next() {
                Some((_chunk, start, end)) => {
                    let mut idx = start;
                    while idx < end
                        invariant
                            start <= idx <= end,
                            end <= total,
                            source.wf(),
                            destination.wf(),
                            destination@.width == source@.width,
                            destination@.height == source@.height,
                            destination@.cells.len() == source@.cells.len(),
                            total == source@.cells.len(),
                            w as int == source@.width,
                            forall|j: int|
                                0 <= j < idx ==> #[trigger] destination@.cells[j] == step_cell(
                                    source@,
                                    j,
                                ),
                        decreases end - idx,
                    {
                        step_one_cell(destination, source, idx);
                        idx += 1;
                    }
                },
                None => {
                    break ;
                },
            }
        }
        worker += 1;
    }
    proof {
        assert(it.exhausted());
        assert(destination@.cells =~= next_model(source@).cells);
        assert(destination@ =~= next_model(source@));
    }
}

/// Compute the successor of the cell at flat index `idx` of `source`
/// and store it at the same index of `destination`.
fn step_one_cell(destination: &mut World, source: &World, idx: usize)
    requires
        old(destination).wf(),
        source.wf(),
        old(destination)@.width == source@.width,
        old(destination)@.height == source@.height,
        idx < source@.cells.len(),
    ensures
        final(destination).wf(),
        final(destination)@.width == old(destination)@.width,
        final(destination)@.height == old(destination)@.height,
        final(destination)@.cells == old(destination)@.cells.update(
            idx as int,
            step_cell(source@, idx as int),
        ),
{
    let w: usize = source.width as usize;
    let x: usize = idx % w;
    let y: usize = idx / w;
    proof {
        assert((idx as int) / (w as int) < source@.height) by (nonlinear_arith)
            requires
                w as int == source@.width,
                w >= 1,
                idx < source@.width * source@.height,
                idx < source@.cells.len(),
                source@.cells.len() == source@.width * source@.height,
        ;
    }
    let alive = source.cell_is_alive(x as i32, y as i32);
    let neighbors = source.number_of_live_neighbors(x as i32, y as i32);
    let v = (alive && neighbors == 2) || neighbors == 3;
    destination.cells.set(idx, v);
}

/// Determinism under parallelism: one step of the rule is a function of
/// the source grid alone, so two step results computed from the same
/// source — with any two worker counts, claim orders or granularities —
/// are bit-for-bit identical.
pub proof fn lemma_step_deterministic(
    src: GridModel,
    d1: GridModel,
    d2: GridModel,
    workers1: nat,
    workers2: nat,
)
    requires
        workers1 >= 1,
        workers2 >= 1,
        d1 == next_model(src),
        d2 == next_model(src),
    ensures
        d1 == d2,
{
}

} // verus!

