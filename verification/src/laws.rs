//! The laws of the multi-column layout, stated over the specification
//! functions that the executable functions are proved to compute.

use vstd::prelude::*;

use crate::columns::ColumnsNode;
use crate::columns::ceil_div;
use crate::columns::consumed_count;
use crate::columns::cursor_at;
use crate::columns::lemma_region_counts;
use crate::columns::placement_x;
use crate::columns::pod_regions;
use crate::columns::spent;
use crate::columns::stitch_spec;
use crate::columns::stitched_frame;
use crate::frame::FrameV;
use crate::frame::PlacementV;
use crate::geom::Abs;
use crate::geom::Axes;
use crate::geom::Dir;
use crate::geom::Point;
use crate::geom::Size;
use crate::layout::Layout;
use crate::layout::LayoutError;
use crate::layout::Styles;
use crate::layout::World;
use crate::regions::RegionsV;

verus! {

/// An infinitely wide first region makes column splitting a no-op: the
/// component's output is its child's direct layout against the unmodified
/// regions.
pub proof fn lemma_infinite_width_passthrough<C: Layout>(
    node: ColumnsNode<C>,
    world: World,
    styles: Styles,
    regions: RegionsV,
)
    requires
        !regions.first.x.is_fin(),
    ensures
        node.layout_spec(world, styles, regions) == node.spec_child().layout_spec(
            world,
            styles,
            regions,
        ),
{
}

/// Layout is deterministic: identical inputs yield structurally equal
/// fragments across repeated calls, for every content kind. The layout
/// protocol pins each call's outcome to a single specification value, of
/// which any two results are both equal.
pub proof fn lemma_layout_deterministic<C: Layout>(
    node: C,
    world: World,
    styles: Styles,
    regions: RegionsV,
    r1: Result<Seq<FrameV>, LayoutError>,
    r2: Result<Seq<FrameV>, LayoutError>,
)
    requires
        r1 == node.layout_spec(world, styles, regions),
        r2 == node.layout_spec(world, styles, regions),
    ensures
        r1 == r2,
{
}

/// A single column degenerates to a pass-through: the pod regions equal the
/// originals apart from the forced horizontal expansion and the base width
/// (both widths become the first region's width, exactly, since the gutter
/// term vanishes), and every output frame wraps exactly one child frame,
/// placed at the region's start.
pub proof fn lemma_single_column(
    regions: RegionsV,
    gutter: Abs,
    dir: Dir,
    frames: Seq<FrameV>,
)
    requires
        regions.first.x is Fin,
        regions.first.x.fin_val() >= 0,
        gutter is Fin,
    ensures
        pod_regions(regions, 1, gutter) == (RegionsV {
            first: regions.first,
            base: Size { x: regions.first.x, y: regions.base.y },
            backlog: regions.backlog,
            last: regions.last,
            expand: Axes { x: true, y: regions.expand.y },
        }),
        stitch_spec(regions, 1, gutter, dir, frames).len() == frames.len(),
        forall|t: int|
            0 <= t < frames.len() ==> #[trigger] stitch_spec(regions, 1, gutter, dir, frames)[t].size
                == (Size {
                x: regions.first.x,
                y: if regions.expand.y {
                    regions.height_at(t)
                } else {
                    Abs::Fin(0).spec_max_with(frames[t].size.y)
                },
            }),
        forall|t: int|
            0 <= t < frames.len() ==> #[trigger] stitch_spec(regions, 1, gutter, dir, frames)[t].items
                =~= seq![
                PlacementV {
                    pos: Point {
                        x: placement_x(regions.first.x, dir, Abs::Fin(0), frames[t].size.x),
                        y: Abs::Fin(0),
                    },
                    frame: frames[t],
                },
            ],
{
    let fx = regions.first.x.fin_val();
    let g = gutter.fin_val();
    assert(g * crate::columns::clamp_to_i64(0) == 0) by (nonlinear_arith);
    assert(crate::geom::sat64(fx - 0) == fx);
    if fx > 0 {
        assert(fx / 1 == fx) by {
            vstd::arithmetic::div_mod::lemma_div_multiples_vanish(fx, 1);
            assert(1 * fx == fx) by (nonlinear_arith);
        };
    }
    assert(crate::columns::spec_column_width(regions.first.x, gutter, 1) == regions.first.x);
    assert(crate::columns::pod_backlog(regions.first.y, regions.backlog, 1) =~= regions.backlog)
        by {
        lemma_pod_backlog_single(regions.first.y, regions.backlog);
    };
    assert(pod_regions(regions, 1, gutter) =~= (RegionsV {
        first: regions.first,
        base: Size { x: regions.first.x, y: regions.base.y },
        backlog: regions.backlog,
        last: regions.last,
        expand: Axes { x: true, y: regions.expand.y },
    }));
    let k = frames.len() as int;
    lemma_region_counts(k, 1);
    if k >= 1 {
        vstd::arithmetic::div_mod::lemma_div_multiples_vanish(k - 1, 1);
        assert(1 * (k - 1) == k - 1) by (nonlinear_arith);
        assert(ceil_div(k, 1) == k);
    }
    assert forall|t: int| 0 <= t < frames.len() implies #[trigger] stitch_spec(
        regions,
        1,
        gutter,
        dir,
        frames,
    )[t].items =~= seq![
        PlacementV {
            pos: Point {
                x: placement_x(regions.first.x, dir, Abs::Fin(0), frames[t].size.x),
                y: Abs::Fin(0),
            },
            frame: frames[t],
        },
    ] by {
        assert(t * 1 == t) by (nonlinear_arith);
        assert(consumed_count(k, 1, t) == 1);
        assert(cursor_at(frames, t, 0, gutter) == Abs::Fin(0));
    };
    assert forall|t: int| 0 <= t < frames.len() implies #[trigger] stitch_spec(
        regions,
        1,
        gutter,
        dir,
        frames,
    )[t].size == (Size {
        x: regions.first.x,
        y: if regions.expand.y {
            regions.height_at(t)
        } else {
            Abs::Fin(0).spec_max_with(frames[t].size.y)
        },
    }) by {
        assert(t * 1 == t) by (nonlinear_arith);
        assert(consumed_count(k, 1, t) == 1);
        assert(crate::columns::max_height(frames, t, 0) == Abs::Fin(0));
        assert(crate::columns::max_height(frames, t, 1) == Abs::Fin(0).spec_max_with(
            frames[t].size.y,
        ));
    };
}

/// The number of placements across a sequence of finished frames.
pub open spec fn total_placements(out: Seq<FrameV>) -> int
    decreases out.len(),
{
    if out.len() == 0 {
        0
    } else {
        total_placements(out.drop_last()) + out.last().items.len()
    }
}

/// The first `tt` output regions together hold one placement per child frame
/// they consume.
proof fn lemma_prefix_placements(
    regions: RegionsV,
    columns: int,
    gutter: Abs,
    dir: Dir,
    frames: Seq<FrameV>,
    tt: int,
)
    requires
        columns >= 1,
        0 <= tt <= ceil_div(frames.len() as int, columns),
    ensures
        total_placements(stitch_spec(regions, columns, gutter, dir, frames).take(tt)) == spent(
            frames.len() as int,
            columns,
            tt,
        ),
    decreases tt,
{
    let k = frames.len() as int;
    lemma_region_counts(k, columns);
    let s = stitch_spec(regions, columns, gutter, dir, frames);
    if tt == 0 {
        assert(s.take(0) =~= Seq::<FrameV>::empty());
        assert(0 * columns == 0) by (nonlinear_arith);
    } else {
        lemma_prefix_placements(regions, columns, gutter, dir, frames, tt - 1);
        assert(s.take(tt).drop_last() =~= s.take(tt - 1));
        assert(s.take(tt).last() == s[tt - 1]);
        let m = consumed_count(k, columns, tt - 1);
        assert(1 <= m <= columns);
        assert(s[tt - 1] == stitched_frame(regions, columns, gutter, dir, frames, tt - 1));
        assert(s[tt - 1].items.len() == m);
        assert((tt - 1) * columns < k);
        assert(tt * columns == (tt - 1) * columns + columns) by (nonlinear_arith);
        assert(spent(k, columns, tt - 1) == (tt - 1) * columns);
        if k - (tt - 1) * columns < columns {
            assert(m == k - (tt - 1) * columns);
            assert(tt * columns > k);
            assert(spent(k, columns, tt) == k);
        } else {
            assert(m == columns);
            assert(tt * columns <= k);
            assert(spent(k, columns, tt) == tt * columns);
        }
    }
}

/// Frame conservation: for every column count and child fragment of `k`
/// frames, the stitched output has `ceil(k / columns)` frames, the
/// placements across all output frames number exactly `k`, and the placement
/// with index `j` of the output frame with index `t` holds child frame
/// `t * columns + j`: every child frame appears exactly once, in order.
pub proof fn lemma_frame_conservation(
    regions: RegionsV,
    columns: int,
    gutter: Abs,
    dir: Dir,
    frames: Seq<FrameV>,
)
    requires
        columns >= 1,
    ensures
        stitch_spec(regions, columns, gutter, dir, frames).len() == ceil_div(
            frames.len() as int,
            columns,
        ),
        total_placements(stitch_spec(regions, columns, gutter, dir, frames)) == frames.len(),
        forall|t: int, j: int|
            0 <= t < ceil_div(frames.len() as int, columns) && 0 <= j < consumed_count(
                frames.len() as int,
                columns,
                t,
            ) ==> #[trigger] stitch_spec(regions, columns, gutter, dir, frames)[t].items[j].frame
                == frames[t * columns + j],
{
    let k = frames.len() as int;
    lemma_region_counts(k, columns);
    let tt = ceil_div(k, columns);
    let s = stitch_spec(regions, columns, gutter, dir, frames);
    lemma_prefix_placements(regions, columns, gutter, dir, frames, tt);
    assert(s.take(tt) =~= s);
    if k == 0 {
        assert(0 * columns == 0) by (nonlinear_arith);
        assert(spent(k, columns, tt) == 0);
    } else {
        let q = (k - 1) / columns;
        assert(tt == 1 + q);
        vstd::arithmetic::div_mod::lemma_remainder_upper(k - 1, columns);
        assert((k - 1) - columns < q * columns);
        assert(tt * columns == columns + q * columns) by (nonlinear_arith)
            requires
                tt == 1 + q,
        ;
        assert(tt * columns >= k);
        assert(spent(k, columns, tt) == k);
    }
    assert forall|t: int, j: int|
        0 <= t < ceil_div(k, columns) && 0 <= j < consumed_count(k, columns, t) implies #[trigger] s[t].items[j].frame
        == frames[t * columns + j] by {
        assert(1 <= consumed_count(k, columns, t));
        assert(s[t] == stitched_frame(regions, columns, gutter, dir, frames, t));
    };
}

/// Direction invariance: three equal-width child frames in three columns
/// fill one region either way, with the same frame sizes and the same child
/// frames in the same order. A positive direction places them left to right,
/// the first at the region's start; a negative direction mirrors the
/// placement, the first frame's right edge at the region's far edge. The
/// bounds keep every coordinate inside the finite range, where saturation
/// cannot bend it.
pub proof fn lemma_direction_mirror(
    regions: RegionsV,
    frames: Seq<FrameV>,
    w: i64,
    g: i64,
    fx: i64,
)
    requires
        frames.len() == 3,
        forall|i: int| 0 <= i < 3 ==> #[trigger] frames[i].size.x == Abs::Fin(w),
        regions.first.x == Abs::Fin(fx),
        0 <= w <= 0x1000_0000_0000,
        0 <= g <= 0x1000_0000_0000,
        0 <= fx <= 0x1000_0000_0000,
    ensures
        ({
            let l = stitch_spec(regions, 3, Abs::Fin(g), Dir::Ltr, frames);
            let r = stitch_spec(regions, 3, Abs::Fin(g), Dir::Rtl, frames);
            &&& l.len() == 1
            &&& r.len() == 1
            &&& l[0].size == r[0].size
            &&& l[0].items.len() == 3
            &&& r[0].items.len() == 3
            &&& forall|j: int| 0 <= j < 3 ==> #[trigger] l[0].items[j].frame == frames[j]
            &&& forall|j: int| 0 <= j < 3 ==> #[trigger] r[0].items[j].frame == frames[j]
            &&& forall|j: int|
                0 <= j < 3 ==> #[trigger] l[0].items[j].pos.x == Abs::Fin((j * (w + g)) as i64)
            &&& forall|j: int|
                0 <= j < 3 ==> #[trigger] r[0].items[j].pos.x == Abs::Fin(
                    (fx - j * (w + g) - w) as i64,
                )
        }),
{
    let gutter = Abs::Fin(g);
    lemma_region_counts(3, 3);
    assert(ceil_div(3, 3) == 1);
    assert(0 * 3 == 0) by (nonlinear_arith);
    assert(consumed_count(3, 3, 0) == 3);
    let c0 = cursor_at(frames, 0, 0, gutter);
    let c1 = cursor_at(frames, 0, 1, gutter);
    let c2 = cursor_at(frames, 0, 2, gutter);
    assert(c0 == Abs::Fin(0));
    assert(c1 == Abs::Fin(0).spec_plus(frames[0].size.x.spec_plus(gutter)));
    assert(c1 == Abs::Fin((w + g) as i64));
    assert(c2 == c1.spec_plus(frames[1].size.x.spec_plus(gutter)));
    assert(c2 == Abs::Fin((w + g + w + g) as i64));
    let l = stitch_spec(regions, 3, gutter, Dir::Ltr, frames);
    let r = stitch_spec(regions, 3, gutter, Dir::Rtl, frames);
    assert(l[0] == stitched_frame(regions, 3, gutter, Dir::Ltr, frames, 0));
    assert(r[0] == stitched_frame(regions, 3, gutter, Dir::Rtl, frames, 0));
    assert forall|j: int| 0 <= j < 3 implies #[trigger] l[0].items[j].pos.x == Abs::Fin(
        (j * (w + g)) as i64,
    ) by {
        assert(l[0].items[j].pos.x == cursor_at(frames, 0, j, gutter));
        if j == 0 {
            assert(0 * (w + g) == 0) by (nonlinear_arith);
        } else if j == 1 {
            assert(1 * (w + g) == w + g) by (nonlinear_arith);
        } else {
            assert(2 * (w + g) == w + g + w + g) by (nonlinear_arith);
        }
    };
    assert forall|j: int| 0 <= j < 3 implies #[trigger] r[0].items[j].pos.x == Abs::Fin(
        (fx - j * (w + g) - w) as i64,
    ) by {
        assert(r[0].items[j].pos.x == Abs::Fin(fx).spec_minus(
            cursor_at(frames, 0, j, gutter),
        ).spec_minus(frames[j].size.x));
        if j == 0 {
            assert(0 * (w + g) == 0) by (nonlinear_arith);
        } else if j == 1 {
            assert(1 * (w + g) == w + g) by (nonlinear_arith);
        } else {
            assert(2 * (w + g) == w + g + w + g) by (nonlinear_arith);
        }
    };
}

/// For a finite-width region the component's outcome follows its child's:
/// where the child lays `k` frames into the pod regions, the component
/// returns their stitching — `ceil(k / columns)` finished frames holding `k`
/// placements in all — and where the child fails, the component returns the
/// child's error unchanged, never a partial fragment.
pub proof fn lemma_columns_output<C: Layout>(
    node: ColumnsNode<C>,
    world: World,
    styles: Styles,
    regions: RegionsV,
)
    requires
        node.wf(),
        regions.first.x.is_fin(),
    ensures
        ({
            let columns = node.spec_columns() as int;
            let gutter = styles.gutter.spec_resolve(regions.base.x);
            let pod = pod_regions(regions, columns, gutter);
            match (node.layout_spec(world, styles, regions), node.spec_child().layout_spec(
                world,
                styles,
                pod,
            )) {
                (Ok(out), Ok(frames)) => {
                    &&& out == stitch_spec(regions, columns, gutter, styles.dir, frames)
                    &&& out.len() == ceil_div(frames.len() as int, columns)
                    &&& total_placements(out) == frames.len()
                },
                (Err(e), Err(c)) => e == c,
                _ => false,
            }
        }),
{
    node.lemma_wf();
    let columns = node.spec_columns() as int;
    let gutter = styles.gutter.spec_resolve(regions.base.x);
    let pod = pod_regions(regions, columns, gutter);
    match node.spec_child().layout_spec(world, styles, pod) {
        Ok(frames) => {
            lemma_frame_conservation(regions, columns, gutter, styles.dir, frames);
        },
        Err(_) => {},
    }
}

/// With one column, repeating every height once and dropping the leading
/// first-region height gives back the original backlog.
proof fn lemma_pod_backlog_single(first_y: Abs, backlog: Seq<Abs>)
    ensures
        crate::columns::pod_backlog(first_y, backlog, 1) =~= backlog,
    decreases backlog.len(),
{
    if backlog.len() > 0 {
        lemma_pod_backlog_single(first_y, backlog.drop_last());
    }
}

} // verus!
