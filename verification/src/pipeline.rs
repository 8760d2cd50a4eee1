//! The compute side of the triple-buffer pipeline. The coordinator owns
//! the two grids not currently at the render side ("next", already
//! computed, and a spare for writing two steps ahead) and rotates them
//! as buffers come back, so the render side observes exactly the
//! sequential generations of the initial grid, in order.

use vstd::prelude::*;

use crate::model::{next_model, nth_model, GridModel};
use crate::world::{compute_step, World, WORKER_COUNT};

verus! {

/// Compute-side state of the pipeline. The caller ships the initial
/// grid (generation 0) to the render side; from then on every returned
/// buffer is traded for the next generation via `advance`.
pub struct Coordinator {
    next_world: World,
    spare_world: World,
    initial: Ghost<GridModel>,
    handed_out: Ghost<nat>,
}

impl Coordinator {
    /// The first generation of this run, as shipped to the render side
    /// before the coordinator existed.
    pub closed spec fn initial_model(&self) -> GridModel {
        self.initial@
    }

    /// How many grids have been handed to the render side so far
    /// (counting the initial one).
    pub closed spec fn frames_sent(&self) -> nat {
        self.handed_out@
    }

    pub closed spec fn wf(&self) -> bool {
        &&& self.next_world.wf()
        &&& self.spare_world.wf()
        &&& self.spare_world@.width == self.next_world@.width
        &&& self.spare_world@.height == self.next_world@.height
        &&& self.initial@.width == self.next_world@.width
        &&& self.initial@.height == self.next_world@.height
        &&& self.handed_out@ >= 1
        &&& self.next_world@ == nth_model(self.initial@, self.handed_out@)
    }

    /// Width and height shared by every buffer in circulation.
    pub closed spec fn spec_width(&self) -> int {
        self.next_world@.width
    }

    pub closed spec fn spec_height(&self) -> int {
        self.next_world@.height
    }

    /// Set up the compute side: `current` is the grid the caller ships
    /// to the render side as generation 0. The coordinator retains a
    /// freshly computed generation 1 and a spare buffer.
    pub fn new(current: &World) -> (c: Coordinator)
        requires
            current.wf(),
        ensures
            c.wf(),
            c.initial_model() == current@,
            c.frames_sent() == 1,
            c.spec_width() == current@.width,
            c.spec_height() == current@.height,
    {
        let width = current.width();
        let height = current.height();
        // Witnesses that width * height fits in usize, as the buffer
        // constructors require.
        let _count = current.cell_count();
        let mut next = World::new_empty(width, height);
        compute_step(&mut next, current, WORKER_COUNT);
        let spare = World::new_empty(width, height);
        proof {
            assert(nth_model(current@, 0) == current@);
            assert(nth_model(current@, 1) == next_model(nth_model(current@, 0)));
        }
        Coordinator {
            next_world: next,
            spare_world: spare,
            initial: Ghost(current@),
            handed_out: Ghost(1nat),
        }
    }

    /// Trade a buffer returned by the render side for the next grid to
    /// ship. The grid handed out is exactly the `frames_sent`-th
    /// sequential generation of the initial grid: the concurrency of
    /// the pipeline never reorders, skips or corrupts a generation.
    pub fn advance(&mut self, returned: World) -> (out: World)
        requires
            old(self).wf(),
            returned.wf(),
            returned@.width == old(self).spec_width(),
            returned@.height == old(self).spec_height(),
        ensures
            final(self).wf(),
            out.wf(),
            out@ == nth_model(old(self).initial_model(), old(self).frames_sent()),
            final(self).initial_model() == old(self).initial_model(),
            final(self).frames_sent() == old(self).frames_sent() + 1,
            final(self).spec_width() == old(self).spec_width(),
            final(self).spec_height() == old(self).spec_height(),
    {
        let mut returned = returned;
        compute_step(&mut self.spare_world, &self.next_world, WORKER_COUNT);
        core::mem::swap(&mut self.next_world, &mut self.spare_world);
        core::mem::swap(&mut self.spare_world, &mut returned);
        proof {
            self.handed_out@ = self.handed_out@ + 1;
        }
        returned
    }
}

} // verus!
