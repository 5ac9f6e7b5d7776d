//! The multi-column layout component.
//!
//! The component subdivides one region into equally wide column strips
//! ("pods"), lays its child out against the pod regions, and stitches the
//! child's frames back into one finished frame per original region: every
//! group of `columns` consecutive child frames fills one region, placed side
//! by side with gutter spacing, in reading order for a positive writing
//! direction and mirrored for a negative one.

use vstd::arithmetic::div_mod::lemma_fundamental_div_mod;
use vstd::arithmetic::mul::lemma_mul_inequality;
use vstd::prelude::*;

use crate::frame::Frame;
use crate::frame::FrameV;
use crate::frame::Fragment;
use crate::frame::PlacementV;
use crate::frame::frames_view;
use crate::geom::Abs;
use crate::geom::Axes;
use crate::geom::Dir;
use crate::geom::Point;
use crate::geom::Rel;
use crate::geom::Size;
use crate::geom::sat64;
use crate::layout::Layout;
use crate::layout::LayoutError;
use crate::layout::Styles;
use crate::layout::World;
use crate::regions::Regions;
use crate::regions::RegionsV;

verus! {

/// The default size of the gutter space between columns, as a style
/// context's fallback: four per cent (four hundred permyriad) of the base
/// width.
pub fn default_gutter() -> (r: Rel)
    ensures
        r == (Rel { abs: 0, ratio: 400 }),
{
    Rel { abs: 0, ratio: 400 }
}

/// Clamps a nonnegative count into the `i64` range, for arithmetic with
/// lengths.
pub open spec fn clamp_to_i64(c: int) -> int
    recommends
        c >= 0,
{
    if c > i64::MAX as int {
        i64::MAX as int
    } else {
        c
    }
}

/// The width of one column strip: the first region's width, less one gutter
/// per inner boundary, split evenly. The quotient rounds toward zero, and a
/// non-positive or unbounded remainder is the degenerate geometry that
/// excessive gutter makes: it is clamped to zero rather than rejected.
pub open spec fn spec_column_width(first_x: Abs, gutter: Abs, columns: int) -> Abs
    recommends
        columns >= 1,
{
    match (first_x, gutter) {
        (Abs::Fin(fx), Abs::Fin(g)) => {
            let gm = sat64(g * clamp_to_i64(columns - 1));
            let num = sat64(fx - gm);
            if num <= 0 {
                Abs::Fin(0)
            } else {
                Abs::Fin((num / clamp_to_i64(columns)) as i64)
            }
        },
        (Abs::Fin(_), Abs::Inf) => Abs::Fin(0),
        (Abs::Inf, _) => Abs::Inf,
    }
}

/// The same height offered `n` times over.
pub open spec fn repeat_height(h: Abs, n: int) -> Seq<Abs> {
    Seq::new(if n >= 0 { n as nat } else { 0 }, |i: int| h)
}

/// The backlog of the pod regions: the sequence of the first region's height
/// followed by the original backlog, every entry repeated once per column,
/// with the first entry dropped (the pod's own immediate region already
/// consumes it). Every `columns` consecutive pod regions thus share one
/// original region's height before advancing.
pub open spec fn pod_backlog(first_y: Abs, backlog: Seq<Abs>, columns: int) -> Seq<Abs>
    recommends
        columns >= 1,
    decreases backlog.len(),
{
    if backlog.len() == 0 {
        repeat_height(first_y, columns - 1)
    } else {
        pod_backlog(first_y, backlog.drop_last(), columns) + repeat_height(
            backlog.last(),
            columns,
        )
    }
}

/// The pod regions the child is laid out against: the original regions with
/// the width of every region replaced by one column strip's width, the
/// backlog stretched so that each original height serves one full row of
/// columns, and horizontal expansion forced (a column always claims its full
/// strip width).
pub open spec fn pod_regions(regions: RegionsV, columns: int, gutter: Abs) -> RegionsV
    recommends
        columns >= 1,
{
    let width = spec_column_width(regions.first.x, gutter, columns);
    RegionsV {
        first: Size { x: width, y: regions.first.y },
        base: Size { x: width, y: regions.base.y },
        backlog: pod_backlog(regions.first.y, regions.backlog, columns),
        last: regions.last,
        expand: Axes { x: true, y: regions.expand.y },
    }
}

/// Computes one column strip's width; see [`spec_column_width`].
pub fn column_width(first_x: Abs, gutter: Abs, columns: usize) -> (r: Abs)
    requires
        columns >= 1,
    ensures
        r == spec_column_width(first_x, gutter, columns as int),
{
    match (first_x, gutter) {
        (Abs::Fin(fx), Abs::Fin(g)) => {
            let cm1: i64 = if (columns - 1) as u64 > i64::MAX as u64 {
                i64::MAX
            } else {
                (columns - 1) as i64
            };
            assert(cm1 as int == clamp_to_i64(columns as int - 1));
            let gm: i64 = match g.checked_mul(cm1) {
                Some(v) => v,
                None => {
                    proof {
                        crate::geom::lemma_sign_of_saturated_mul(g as int, cm1 as int);
                    }
                    if g < 0 {
                        i64::MIN
                    } else {
                        i64::MAX
                    }
                },
            };
            assert(gm as int == sat64(g * clamp_to_i64(columns as int - 1)));
            let num: i64 = match fx.checked_sub(gm) {
                Some(v) => v,
                None => if gm < 0 {
                    i64::MAX
                } else {
                    i64::MIN
                },
            };
            assert(num as int == sat64(fx - gm));
            if num <= 0 {
                Abs::Fin(0)
            } else {
                let cc: u64 = if columns as u64 > i64::MAX as u64 {
                    i64::MAX as u64
                } else {
                    columns as u64
                };
                assert(cc as int == clamp_to_i64(columns as int));
                let q: u64 = (num as u64) / cc;
                assert(q <= num as u64) by (nonlinear_arith)
                    requires
                        q == (num as u64) / cc,
                        cc >= 1,
                ;
                Abs::Fin(q as i64)
            }
        },
        (Abs::Fin(_), Abs::Inf) => Abs::Fin(0),
        (Abs::Inf, _) => Abs::Inf,
    }
}

/// Builds the pod regions; see [`pod_regions`].
pub fn make_pod(regions: &Regions, columns: usize, gutter: Abs) -> (pod: Regions)
    requires
        columns >= 1,
    ensures
        pod@ == pod_regions(regions@, columns as int, gutter),
{
    let width = column_width(regions.first.x, gutter, columns);
    let mut backlog: Vec<Abs> = Vec::new();
    let mut i: usize = 0;
    while i < columns - 1
        invariant
            columns >= 1,
            i <= columns - 1,
            backlog@ == repeat_height(regions.first.y, i as int),
        decreases columns - 1 - i,
    {
        backlog.push(regions.first.y);
        i += 1;
        proof {
            assert(backlog@ =~= repeat_height(regions@.first.y, i as int));
        }
    }
    proof {
        assert(regions@.backlog.take(0) =~= Seq::<Abs>::empty());
        assert(backlog@ == pod_backlog(
            regions@.first.y,
            regions@.backlog.take(0),
            columns as int,
        ));
    }
    let mut bi: usize = 0;
    while bi < regions.backlog.len()
        invariant
            columns >= 1,
            bi <= regions.backlog.len(),
            backlog@ == pod_backlog(regions@.first.y, regions@.backlog.take(bi as int), columns as int),
        decreases regions.backlog.len() - bi,
    {
        let h = regions.backlog[bi];
        let ghost before = backlog@;
        let mut j: usize = 0;
        while j < columns
            invariant
                j <= columns,
                backlog@ == before + repeat_height(h, j as int),
            decreases columns - j,
        {
            backlog.push(h);
            j += 1;
            proof {
                assert(backlog@ =~= before + repeat_height(h, j as int));
            }
        }
        bi += 1;
        proof {
            let taken = regions@.backlog.take(bi as int);
            assert(taken.drop_last() =~= regions@.backlog.take(bi as int - 1));
            assert(taken.last() == h);
            assert(backlog@ == pod_backlog(regions@.first.y, taken, columns as int));
        }
    }
    proof {
        assert(regions@.backlog.take(regions@.backlog.len() as int) =~= regions@.backlog);
    }
    Regions::new(
        Size::new(width, regions.first.y),
        Size::new(width, regions.base.y),
        backlog,
        regions.last,
        Axes::new(true, regions.expand.y),
    )
}

/// How many regions the stitched output fills from `k` child frames at
/// `columns` frames per region: the quotient rounded up, so that every child
/// frame finds a place and no trailing region stays empty.
pub open spec fn ceil_div(k: int, c: int) -> int
    recommends
        k >= 0,
        c >= 1,
{
    (k + c - 1) / c
}

/// How many child frames the output region with index `t` consumes: a full
/// row of `columns`, or whatever is left for the last region.
pub open spec fn consumed_count(k: int, columns: int, t: int) -> int {
    if k - t * columns < columns {
        k - t * columns
    } else {
        columns
    }
}

/// The cursor after `j` frames of one region's run have been placed: each
/// placement advances it by that frame's width plus the gutter, whatever the
/// direction.
pub open spec fn cursor_at(frames: Seq<FrameV>, start: int, j: int, gutter: Abs) -> Abs
    decreases j,
{
    if j <= 0 {
        Abs::Fin(0)
    } else {
        cursor_at(frames, start, j - 1, gutter).spec_plus(
            frames[start + j - 1].size.x.spec_plus(gutter),
        )
    }
}

/// Where a frame of the given width lands on the horizontal axis: at the
/// cursor for a positive direction; mirrored for a negative one, its right
/// edge at `first_x - cursor`.
pub open spec fn placement_x(first_x: Abs, dir: Dir, cursor: Abs, width: Abs) -> Abs {
    if dir.spec_is_positive() {
        cursor
    } else {
        first_x.spec_minus(cursor).spec_minus(width)
    }
}

/// The tallest among the first `count` frames of a run, zero when none.
pub open spec fn max_height(frames: Seq<FrameV>, start: int, count: int) -> Abs
    decreases count,
{
    if count <= 0 {
        Abs::Fin(0)
    } else {
        max_height(frames, start, count - 1).spec_max_with(frames[start + count - 1].size.y)
    }
}

/// The finished frame for the output region with index `t`: as wide as the
/// original region; as tall as the offered height when the regions expand
/// vertically, else grown to the tallest consumed frame; holding the
/// consumed child frames side by side at their cursor positions.
pub open spec fn stitched_frame(
    regions: RegionsV,
    columns: int,
    gutter: Abs,
    dir: Dir,
    frames: Seq<FrameV>,
    t: int,
) -> FrameV {
    let start = t * columns;
    let m = consumed_count(frames.len() as int, columns, t);
    let height = if regions.expand.y {
        regions.height_at(t)
    } else {
        max_height(frames, start, m)
    };
    FrameV {
        size: Size { x: regions.first.x, y: height },
        items: Seq::new(
            if m >= 0 {
                m as nat
            } else {
                0
            },
            |j: int|
                PlacementV {
                    pos: Point {
                        x: placement_x(
                            regions.first.x,
                            dir,
                            cursor_at(frames, start, j, gutter),
                            frames[start + j].size.x,
                        ),
                        y: Abs::Fin(0),
                    },
                    frame: frames[start + j],
                },
        ),
    }
}

/// The whole stitched output: `ceil(k / columns)` finished regions, together
/// consuming every child frame exactly once, in order.
pub open spec fn stitch_spec(
    regions: RegionsV,
    columns: int,
    gutter: Abs,
    dir: Dir,
    frames: Seq<FrameV>,
) -> Seq<FrameV>
    recommends
        columns >= 1,
{
    Seq::new(
        if ceil_div(frames.len() as int, columns) >= 0 {
            ceil_div(frames.len() as int, columns) as nat
        } else {
            0
        },
        |t: int| stitched_frame(regions, columns, gutter, dir, frames, t),
    )
}

/// The counting facts behind stitching: how many regions `k` child frames
/// fill, and how many frames each region consumes.
pub proof fn lemma_region_counts(k: int, c: int)
    requires
        k >= 0,
        c >= 1,
    ensures
        ceil_div(k, c) >= 0,
        k == 0 ==> ceil_div(k, c) == 0,
        k >= 1 ==> ceil_div(k, c) == (k - 1) / c + 1,
        ceil_div(k, c) <= k,
        forall|t: int| 0 <= t < ceil_div(k, c) ==> #[trigger] (t * c) < k,
        forall|t: int| 0 <= t < ceil_div(k, c) ==> 1 <= #[trigger] consumed_count(k, c, t) <= c,
        forall|t: int|
            0 <= t < ceil_div(k, c) ==> t * c + #[trigger] consumed_count(k, c, t) <= k,
        forall|t: int| 0 <= t && t + 1 < ceil_div(k, c) ==> #[trigger] consumed_count(k, c, t) == c,
{
    if k == 0 {
        vstd::arithmetic::div_mod::lemma_basic_div(c - 1, c);
    } else {
        vstd::arithmetic::div_mod::lemma_div_plus_one(k - 1, c);
        assert(ceil_div(k, c) == 1 + (k - 1) / c);
        vstd::arithmetic::div_mod::lemma_div_pos_is_pos(k - 1, c);
        vstd::arithmetic::div_mod::lemma_div_nonincreasing(k - 1, c);
        let q = (k - 1) / c;
        assert forall|t: int| 0 <= t < ceil_div(k, c) implies #[trigger] (t * c) < k by {
            assert(t <= q);
            lemma_mul_inequality(t, q, c);
            lemma_fundamental_div_mod(k - 1, c);
            vstd::arithmetic::div_mod::lemma_remainder_lower(k - 1, c);
            assert(q * c <= k - 1) by (nonlinear_arith)
                requires
                    c >= 1,
                    k - 1 == q * c + (k - 1) % c,
                    (k - 1) % c >= 0,
            ;
        };
        assert forall|t: int| 0 <= t && t + 1 < ceil_div(k, c) implies consumed_count(k, c, t)
            == c by {
            if k - t * c < c {
                assert(k <= t * c + c);
                assert(c * (t + 1) == t * c + c) by (nonlinear_arith);
                vstd::arithmetic::div_mod::lemma_div_multiples_vanish_fancy(t + 1, c - 1, c);
                assert((c * (t + 1) + (c - 1)) / c == t + 1);
                vstd::arithmetic::div_mod::lemma_div_is_ordered(
                    k + c - 1,
                    c * (t + 1) + (c - 1),
                    c,
                );
                assert(ceil_div(k, c) <= t + 1);
            }
        };
    }
}

/// How many child frames the first `t` output regions consume together.
pub open spec fn spent(k: int, c: int, t: int) -> int {
    if t * c <= k {
        t * c
    } else {
        k
    }
}

/// Stitches the child's frames into finished per-region frames; see
/// [`stitch_spec`].
#[verifier::loop_isolation(false)]
pub fn stitch(
    regions: &Regions,
    columns: usize,
    gutter: Abs,
    dir: Dir,
    frames: Vec<Frame>,
) -> (out: Vec<Frame>)
    requires
        columns >= 1,
    ensures
        frames_view(out@) == stitch_spec(
            regions@,
            columns as int,
            gutter,
            dir,
            frames_view(frames@),
        ),
{
    let ghost orig: Seq<FrameV> = frames_view(frames@);
    let ghost spec_out = stitch_spec(regions@, columns as int, gutter, dir, orig);
    let k = frames.len();
    proof {
        lemma_region_counts(k as int, columns as int);
    }
    let total: usize = if k == 0 {
        0
    } else {
        (k - 1) / columns + 1
    };
    assert(total as int == ceil_div(k as int, columns as int));
    let mut rest = frames;
    let mut out: Vec<Frame> = Vec::new();
    let mut t: usize = 0;
    proof {
        assert(spent(k as int, columns as int, 0) == 0) by (nonlinear_arith);
        assert(frames_view(rest@) =~= orig.skip(0));
    }
    while t < total
        invariant
            columns >= 1,
            k == orig.len(),
            total as int == ceil_div(k as int, columns as int),
            total <= k,
            t <= total,
            spec_out == stitch_spec(regions@, columns as int, gutter, dir, orig),
            spec_out.len() == total,
            out@.len() == t,
            forall|i: int| 0 <= i < t ==> #[trigger] out@[i].view() == spec_out[i],
            frames_view(rest@) == orig.skip(spent(k as int, columns as int, t as int)),
        decreases total - t,
    {
        assert((t as int) * (columns as int) < k as int);
        let start = t * columns;
        assert(spent(k as int, columns as int, t as int) == start as int);
        let remaining = k - start;
        let m = if remaining < columns {
            remaining
        } else {
            columns
        };
        assert(m as int == consumed_count(k as int, columns as int, t as int));
        assert(start + m <= k);
        let height = if regions.expand.y {
            regions.height_at(t)
        } else {
            Abs::Fin(0)
        };
        let mut output = Frame::new(Size::new(regions.first.x, height));
        let mut cursor = Abs::Fin(0);
        let ghost target = stitched_frame(regions@, columns as int, gutter, dir, orig, t as int);
        let mut j: usize = 0;
        while j < m
            invariant
                columns >= 1,
                k == orig.len(),
                start as int == (t as int) * (columns as int),
                start + m <= k,
                m as int == consumed_count(k as int, columns as int, t as int),
                j <= m,
                frames_view(rest@) == orig.skip(start as int + j as int),
                cursor == cursor_at(orig, start as int, j as int, gutter),
                output@.size.x == regions@.first.x,
                regions@.expand.y ==> output@.size.y == regions@.height_at(t as int),
                !regions@.expand.y ==> output@.size.y == max_height(
                    orig,
                    start as int,
                    j as int,
                ),
                output@.items.len() == j,
                forall|jj: int|
                    0 <= jj < j ==> #[trigger] output@.items[jj] == (PlacementV {
                        pos: Point {
                            x: placement_x(
                                regions@.first.x,
                                dir,
                                cursor_at(orig, start as int, jj, gutter),
                                orig[start as int + jj].size.x,
                            ),
                            y: Abs::Fin(0),
                        },
                        frame: orig[start as int + jj],
                    }),
            decreases m - j,
        {
            let ghost rest_pre = rest@;
            let frame = rest.remove(0);
            proof {
                assert(frame.view() == frames_view(rest_pre)[0]);
                assert(frame.view() == orig[start as int + j as int]);
                let n = start as int + j as int;
                assert forall|i: int| 0 <= i < rest@.len() implies frames_view(rest@)[i]
                    == orig.skip(n + 1)[i] by {
                    assert(rest@[i] == rest_pre[i + 1]);
                    assert(frames_view(rest_pre)[i + 1] == rest_pre[i + 1].view());
                    assert(frames_view(rest_pre)[i + 1] == orig.skip(n)[i + 1]);
                };
                assert(rest@.len() == rest_pre.len() - 1);
                assert(frames_view(rest@) =~= orig.skip(n + 1));
            }
            if !regions.expand.y {
                output.grow_height(frame.height());
            }
            let width = frame.width();
            let x = if dir.is_positive() {
                cursor
            } else {
                regions.first.x.minus(cursor).minus(width)
            };
            output.push_frame(Point::with_x(x), frame);
            cursor = cursor.plus(width.plus(gutter));
            j += 1;
        }
        proof {
            assert(output@.items =~= target.items);
            assert(output@ =~= target);
        }
        out.push(output);
        t += 1;
        proof {
            assert((t as int) * (columns as int) == ((t - 1) as int) * (columns as int)
                + columns as int) by (nonlinear_arith);
            assert(frames_view(rest@) == orig.skip(
                spent(k as int, columns as int, t as int),
            ));
        }
    }
    proof {
        assert(frames_view(out@) =~= spec_out);
    }
    out
}

/// Separates a region into multiple equally sized columns.
#[derive(Debug)]
pub struct ColumnsNode<C> {
    /// How many columns there should be.
    columns: usize,
    /// The child to be laid out into the columns. Most likely, this is a
    /// flow or stack of content.
    child: C,
}

impl<C> ColumnsNode<C> {
    /// A column count is always positive.
    #[verifier::type_invariant]
    pub closed spec fn wf(&self) -> bool {
        self.columns >= 1
    }

    /// How many columns there are.
    pub closed spec fn spec_columns(&self) -> usize {
        self.columns
    }

    /// The child to be laid out into the columns.
    pub closed spec fn spec_child(&self) -> C {
        self.child
    }

    /// Builds the component from marshalled arguments: a positive column
    /// count and the child content. The external construction interface
    /// reports a malformed count before it reaches this core; the component
    /// is immutable once built.
    pub fn construct(columns: usize, child: C) -> (r: ColumnsNode<C>)
        requires
            columns >= 1,
        ensures
            r.spec_columns() == columns,
            r.spec_child() == child,
    {
        ColumnsNode { columns, child }
    }

    /// What construction established: the column count stays positive.
    pub proof fn lemma_wf(self)
        requires
            self.wf(),
        ensures
            self.spec_columns() >= 1,
    {
    }

    pub fn columns(&self) -> (r: usize)
        ensures
            r == self.spec_columns(),
            r >= 1,
    {
        proof {
            use_type_invariant(self);
        }
        self.columns
    }

    pub fn child(&self) -> (r: &C)
        ensures
            *r == self.spec_child(),
    {
        &self.child
    }
}

impl<C: Layout> Layout for ColumnsNode<C> {
    /// Separating unbounded space into columns is meaningless, so an
    /// infinitely wide first region delegates to the child unchanged.
    /// Otherwise the gutter resolves against the base width, the child is
    /// laid out against the pod regions, and its frames are stitched back
    /// into one frame per original region; a child's error is propagated
    /// unchanged.
    open spec fn layout_spec(&self, world: World, styles: Styles, regions: RegionsV) -> Result<
        Seq<FrameV>,
        LayoutError,
    > {
        if !regions.first.x.is_fin() {
            self.spec_child().layout_spec(world, styles, regions)
        } else {
            let gutter = styles.gutter.spec_resolve(regions.base.x);
            match self.spec_child().layout_spec(
                world,
                styles,
                pod_regions(regions, self.spec_columns() as int, gutter),
            ) {
                Ok(frames) => Ok(
                    stitch_spec(regions, self.spec_columns() as int, gutter, styles.dir, frames),
                ),
                Err(e) => Err(e),
            }
        }
    }

    fn layout(&self, world: &World, styles: &Styles, regions: &Regions) -> (r: Result<
        Fragment,
        LayoutError,
    >) {
        proof {
            use_type_invariant(self);
        }
        if !regions.first.x.is_finite() {
            return self.child.layout(world, styles, regions);
        }
        let gutter = styles.gutter.resolve(regions.base.x);
        let pod = make_pod(regions, self.columns, gutter);
        let frag = match self.child.layout(world, styles, &pod) {
            Ok(f) => f,
            Err(e) => return Err(e),
        };
        let frames = frag.into_frames();
        let out = stitch(regions, self.columns, gutter, styles.dir, frames);
        Ok(Fragment::frames(out))
    }
}

} // verus!
