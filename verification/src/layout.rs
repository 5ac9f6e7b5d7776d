//! The layout protocol: the seam every content kind implements.
//!
//! A layout call consumes an immutable snapshot of world, styles and regions
//! and produces a freshly allocated fragment; it is pure, synchronous and
//! re-entrant. Each implementation gives the value it computes as a
//! specification function, and its executable `layout` is held to return
//! exactly that value: two calls on identical inputs therefore yield
//! structurally equal fragments.

use vstd::prelude::*;

use crate::frame::FrameV;
use crate::frame::Fragment;
use crate::geom::Dir;
use crate::geom::Rel;
use crate::regions::Regions;
use crate::regions::RegionsV;

verus! {

/// A read-only handle to the resources that content layout might need. It is
/// threaded through to children untouched; this core reads nothing from it.
#[derive(Clone, Copy, Debug, PartialEq, Eq, Structural)]
pub struct World {}

/// A failure reported by some content's layout. This core introduces no
/// error kind of its own; a child's error is propagated unchanged.
#[derive(Clone, Copy, Debug, PartialEq, Eq, Structural)]
pub struct LayoutError {}

/// The ambient style context a layout call resolves properties against: the
/// gutter between columns, as a length relative to the base width, and the
/// writing direction.
#[derive(Clone, Copy, Debug, PartialEq, Eq, Structural)]
pub struct Styles {
    pub gutter: Rel,
    pub dir: Dir,
}

/// The deep view of a layout call's outcome.
pub open spec fn layout_result_view(r: Result<Fragment, LayoutError>) -> Result<
    Seq<FrameV>,
    LayoutError,
> {
    match r {
        Ok(fragment) => Ok(fragment@),
        Err(e) => Err(e),
    }
}

/// The uniform layout contract. Every content kind lays itself out against a
/// sequence of regions and returns one frame per consumed region, or a single
/// error; no partial fragment escapes a failed call.
pub trait Layout {
    /// The fragment (or error) this content produces for the given inputs.
    spec fn layout_spec(&self, world: World, styles: Styles, regions: RegionsV) -> Result<
        Seq<FrameV>,
        LayoutError,
    >;

    /// Lays the content out. The result is exactly the value of
    /// [`Layout::layout_spec`] on the same inputs.
    fn layout(&self, world: &World, styles: &Styles, regions: &Regions) -> (r: Result<
        Fragment,
        LayoutError,
    >)
        ensures
            layout_result_view(r) == self.layout_spec(*world, *styles, regions@),
    ;
}

} // verus!
