//! Elementary content kinds.
//!
//! The layout protocol is a seam: any content kind may stand behind it. The
//! kinds here are the two simplest ones — a rigid run of finished blocks, and
//! content that cannot be laid out at all. They drive the column component
//! from either side of its contract: the first exercises stitching, the
//! second the propagation of a child's failure.

use vstd::prelude::*;

use crate::frame::Frame;
use crate::frame::FrameV;
use crate::frame::Fragment;
use crate::frame::frames_view;
use crate::geom::Size;
use crate::layout::Layout;
use crate::layout::LayoutError;
use crate::layout::Styles;
use crate::layout::World;
use crate::regions::Regions;
use crate::regions::RegionsV;

verus! {

/// Content that produces a fixed run of empty frames, one per stored size,
/// whatever space is offered: a rigid stand-in for blocks whose extent is
/// already settled.
#[derive(Debug)]
pub struct BoxesNode {
    pub sizes: Vec<Size>,
}

impl BoxesNode {
    pub fn new(sizes: Vec<Size>) -> (r: BoxesNode)
        ensures
            r.sizes@ == sizes@,
    {
        BoxesNode { sizes }
    }
}

impl Layout for BoxesNode {
    /// One empty frame per stored size, in order.
    open spec fn layout_spec(&self, world: World, styles: Styles, regions: RegionsV) -> Result<
        Seq<FrameV>,
        LayoutError,
    > {
        Ok(
            Seq::new(
                self.sizes@.len(),
                |i: int| FrameV { size: self.sizes@[i], items: Seq::empty() },
            ),
        )
    }

    #[verifier::loop_isolation(false)]
    fn layout(&self, world: &World, styles: &Styles, regions: &Regions) -> (r: Result<
        Fragment,
        LayoutError,
    >) {
        let mut frames: Vec<Frame> = Vec::new();
        let mut i: usize = 0;
        while i < self.sizes.len()
            invariant
                i <= self.sizes@.len(),
                frames@.len() == i,
                forall|t: int|
                    0 <= t < i ==> #[trigger] frames@[t].view() == (FrameV {
                        size: self.sizes@[t],
                        items: Seq::empty(),
                    }),
            decreases self.sizes@.len() - i,
        {
            frames.push(Frame::new(self.sizes[i]));
            i += 1;
        }
        proof {
            assert(frames_view(frames@) =~= Seq::new(
                self.sizes@.len(),
                |t: int| FrameV { size: self.sizes@[t], items: Seq::empty() },
            ));
        }
        Ok(Fragment::frames(frames))
    }
}

/// Content that cannot be laid out: every call reports a layout failure.
#[derive(Clone, Copy, Debug, PartialEq, Eq, Structural)]
pub struct FailNode {}

impl Layout for FailNode {
    open spec fn layout_spec(&self, world: World, styles: Styles, regions: RegionsV) -> Result<
        Seq<FrameV>,
        LayoutError,
    > {
        Err(LayoutError {})
    }

    fn layout(&self, world: &World, styles: &Styles, regions: &Regions) -> (r: Result<
        Fragment,
        LayoutError,
    >) {
        Err(LayoutError {})
    }
}

} // verus!
