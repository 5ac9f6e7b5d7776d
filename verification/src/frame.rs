//! Finished boxes of placed content.
//!
//! A [`Frame`] is a sized box owning child frames at explicit offsets; it
//! represents one finished region. A [`Fragment`] is the ordered sequence of
//! frames produced by one layout call, one per consumed region. A frame is
//! mutable only while the call that created it still owns it; once returned,
//! it is passed around immutably.
//!
//! Contracts speak of frames through their deep views [`FrameV`] and
//! [`PlacementV`], whose placement sequences are mathematical sequences.

use vstd::prelude::*;

use crate::geom::Abs;
use crate::geom::Point;
use crate::geom::Size;

verus! {

broadcast use vstd::std_specs::vec::group_vec_axioms;

/// The deep view of a [`Frame`].
#[verifier::ext_equal]
pub struct FrameV {
    pub size: Size,
    pub items: Seq<PlacementV>,
}

/// The deep view of a [`Placement`].
#[verifier::ext_equal]
pub struct PlacementV {
    pub pos: Point,
    pub frame: FrameV,
}

/// One child frame placed at an offset inside its parent.
#[derive(Debug)]
pub struct Placement {
    pub pos: Point,
    pub frame: Frame,
}

/// A finished, sized box of placed content for one region.
#[derive(Debug)]
pub struct Frame {
    pub size: Size,
    pub items: Vec<Placement>,
}

impl Placement {
    pub open spec fn view(&self) -> PlacementV
        decreases *self,
    {
        PlacementV { pos: self.pos, frame: self.frame.view() }
    }
}

impl Frame {
    pub open spec fn view(&self) -> FrameV
        decreases *self,
    {
        FrameV {
            size: self.size,
            items: Seq::new(
                self.items@.len(),
                |i: int|
                    if 0 <= i < self.items@.len() {
                        self.items@[i].view()
                    } else {
                        PlacementV {
                            pos: Point { x: Abs::Fin(0), y: Abs::Fin(0) },
                            frame: FrameV { size: self.size, items: Seq::empty() },
                        }
                    },
            ),
        }
    }

    /// A new, empty frame of the given size.
    pub fn new(size: Size) -> (r: Frame)
        ensures
            r@ == (FrameV { size, items: Seq::<PlacementV>::empty() }),
    {
        let r = Frame { size, items: Vec::new() };
        proof {
            assert(r@.items =~= Seq::<PlacementV>::empty());
        }
        r
    }

    pub fn width(&self) -> (r: Abs)
        ensures
            r == self.size.x,
    {
        self.size.x
    }

    pub fn height(&self) -> (r: Abs)
        ensures
            r == self.size.y,
    {
        self.size.y
    }

    /// Grows the frame's height to at least `h`; the placements stay as they
    /// are.
    pub fn grow_height(&mut self, h: Abs)
        ensures
            final(self)@ == (FrameV {
                size: Size { x: old(self)@.size.x, y: old(self)@.size.y.spec_max_with(h) },
                items: old(self)@.items,
            }),
    {
        let ghost pre = self@;
        self.size.y = self.size.y.max_with(h);
        proof {
            assert(self@.items =~= pre.items);
        }
    }

    /// Places a child frame at the given position, after all placements made
    /// so far.
    pub fn push_frame(&mut self, pos: Point, frame: Frame)
        ensures
            final(self)@ == (FrameV {
                size: old(self)@.size,
                items: old(self)@.items.push(PlacementV { pos, frame: frame@ }),
            }),
    {
        let ghost pre = self@;
        let ghost pv = PlacementV { pos, frame: frame@ };
        self.items.push(Placement { pos, frame });
        proof {
            assert(self@.items =~= pre.items.push(pv));
        }
    }
}

/// The deep views of a sequence of frames.
pub open spec fn frames_view(frames: Seq<Frame>) -> Seq<FrameV> {
    Seq::new(frames.len(), |i: int| frames[i].view())
}

/// The ordered sequence of frames produced by one layout call.
#[derive(Debug)]
pub struct Fragment {
    pub frames: Vec<Frame>,
}

impl Fragment {
    pub open spec fn view(&self) -> Seq<FrameV> {
        frames_view(self.frames@)
    }

    /// Wraps finished frames, in region order.
    pub fn frames(frames: Vec<Frame>) -> (r: Fragment)
        ensures
            r@ == frames_view(frames@),
    {
        Fragment { frames }
    }

    /// How many regions the layout call consumed.
    pub fn len(&self) -> (r: usize)
        ensures
            r == self@.len(),
    {
        self.frames.len()
    }

    /// Hands the frames back to the caller, in region order.
    pub fn into_frames(self) -> (r: Vec<Frame>)
        ensures
            frames_view(r@) == self@,
    {
        self.frames
    }
}

} // verus!
