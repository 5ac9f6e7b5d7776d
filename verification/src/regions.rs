//! The space offered to one layout call: an immediate region, a backlog of
//! later heights, an optional repeating trailing height, and per-axis expand
//! flags.

use vstd::prelude::*;

use crate::geom::Abs;
use crate::geom::Axes;
use crate::geom::Size;

verus! {

/// The deep view of [`Regions`], with the backlog as a mathematical sequence.
#[verifier::ext_equal]
pub struct RegionsV {
    pub first: Size,
    pub base: Size,
    pub backlog: Seq<Abs>,
    pub last: Option<Abs>,
    pub expand: Axes,
}

impl RegionsV {
    /// The height offered for the region with the given index: the immediate
    /// region first, then the backlog in order, then the repeating trailing
    /// height. When the backlog is exhausted and no trailing height repeats,
    /// the offer is empty: further regions are taken as zero-height, so that
    /// stitching can still give every child frame a place.
    pub open spec fn height_at(self, i: int) -> Abs
        recommends
            i >= 0,
    {
        if i == 0 {
            self.first.y
        } else if i - 1 < self.backlog.len() {
            self.backlog[i - 1]
        } else {
            match self.last {
                Some(h) => h,
                None => Abs::Fin(0),
            }
        }
    }
}

/// A sequence of regions of drawing space. All regions share the width of
/// `first`; the backlog holds the heights of the regions after the first,
/// and `last`, if present, repeats indefinitely once the backlog is
/// exhausted.
///
/// `base` is the reference size against which relative lengths resolve. It is
/// kept apart from `first` on purpose: a parent that subtracts gutter from the
/// width before handing the remainder to a child must still resolve the
/// child's relative lengths against the width before the subtraction.
#[derive(Debug)]
pub struct Regions {
    pub first: Size,
    pub base: Size,
    pub backlog: Vec<Abs>,
    pub last: Option<Abs>,
    pub expand: Axes,
}

impl Regions {
    pub open spec fn view(&self) -> RegionsV {
        RegionsV {
            first: self.first,
            base: self.base,
            backlog: self.backlog@,
            last: self.last,
            expand: self.expand,
        }
    }

    pub fn new(
        first: Size,
        base: Size,
        backlog: Vec<Abs>,
        last: Option<Abs>,
        expand: Axes,
    ) -> (r: Regions)
        ensures
            r@ == (RegionsV { first, base, backlog: backlog@, last, expand }),
    {
        Regions { first, base, backlog, last, expand }
    }

    /// The height offered for the region with the given index; see
    /// [`RegionsV::height_at`].
    pub fn height_at(&self, i: usize) -> (r: Abs)
        ensures
            r == self@.height_at(i as int),
    {
        if i == 0 {
            self.first.y
        } else if i - 1 < self.backlog.len() {
            self.backlog[i - 1]
        } else {
            match self.last {
                Some(h) => h,
                None => Abs::Fin(0),
            }
        }
    }
}

} // verus!
