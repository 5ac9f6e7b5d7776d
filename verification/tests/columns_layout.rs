use multicol::columns::ColumnsNode;
use multicol::columns::column_width;
use multicol::columns::make_pod;
use multicol::content::BoxesNode;
use multicol::content::FailNode;
use multicol::frame::Frame;
use multicol::geom::Abs;
use multicol::geom::Axes;
use multicol::geom::Dir;
use multicol::geom::Rel;
use multicol::geom::Size;
use multicol::layout::Layout;
use multicol::layout::Styles;
use multicol::layout::World;
use multicol::regions::Regions;

fn fin(v: i64) -> Abs {
    Abs::Fin(v)
}

fn boxes(n: usize, w: i64, h: i64) -> BoxesNode {
    let mut sizes = Vec::new();
    for _ in 0..n {
        sizes.push(Size::new(fin(w), fin(h)));
    }
    BoxesNode::new(sizes)
}

fn simple_regions(width: i64, height: i64) -> Regions {
    Regions::new(
        Size::new(fin(width), fin(height)),
        Size::new(fin(width), fin(height)),
        Vec::new(),
        Some(fin(height)),
        Axes::new(false, false),
    )
}

fn styles(gutter_abs: i64, dir: Dir) -> Styles {
    Styles { gutter: Rel { abs: gutter_abs, ratio: 0 }, dir }
}

fn frame_eq(a: &Frame, b: &Frame) -> bool {
    if a.size != b.size || a.items.len() != b.items.len() {
        return false;
    }
    for i in 0..a.items.len() {
        if a.items[i].pos != b.items[i].pos || !frame_eq(&a.items[i].frame, &b.items[i].frame) {
            return false;
        }
    }
    true
}

#[test]
fn three_columns_six_blocks() {
    // Region 300 wide, no gutter, three columns: each strip is exactly 100
    // wide; six blocks fill two regions, three placements each.
    let node = ColumnsNode::construct(3, boxes(6, 100, 50));
    let out = node
        .layout(&World {}, &styles(0, Dir::Ltr), &simple_regions(300, 500))
        .unwrap();
    assert_eq!(out.frames.len(), 2);
    for frame in &out.frames {
        assert_eq!(frame.size.x, fin(300));
        assert_eq!(frame.size.y, fin(50));
        assert_eq!(frame.items.len(), 3);
        let xs: Vec<Abs> = frame.items.iter().map(|p| p.pos.x).collect();
        assert_eq!(xs, vec![fin(0), fin(100), fin(200)]);
        for p in &frame.items {
            assert_eq!(p.pos.y, fin(0));
            assert_eq!(p.frame.size, Size::new(fin(100), fin(50)));
        }
    }
}

#[test]
fn gutter_narrows_the_strips() {
    // Region 310 wide, absolute gutter 10, two columns: (310 - 10) / 2 = 150.
    assert_eq!(column_width(fin(310), fin(10), 2), fin(150));
    let node = ColumnsNode::construct(2, boxes(2, 150, 40));
    let out = node
        .layout(&World {}, &styles(10, Dir::Ltr), &simple_regions(310, 500))
        .unwrap();
    assert_eq!(out.frames.len(), 1);
    let xs: Vec<Abs> = out.frames[0].items.iter().map(|p| p.pos.x).collect();
    assert_eq!(xs, vec![fin(0), fin(160)]);
}

#[test]
fn frame_conservation_with_remainder() {
    // Seven blocks in three columns: ceil(7 / 3) = 3 regions, the last one
    // holding the single leftover block.
    let node = ColumnsNode::construct(3, boxes(7, 60, 20));
    let out = node
        .layout(&World {}, &styles(0, Dir::Ltr), &simple_regions(200, 500))
        .unwrap();
    assert_eq!(out.frames.len(), 3);
    let counts: Vec<usize> = out.frames.iter().map(|f| f.items.len()).collect();
    assert_eq!(counts, vec![3, 3, 1]);
    let total: usize = counts.iter().sum();
    assert_eq!(total, 7);
}

#[test]
fn no_blocks_no_output() {
    let node = ColumnsNode::construct(3, boxes(0, 10, 10));
    let out = node
        .layout(&World {}, &styles(0, Dir::Ltr), &simple_regions(300, 500))
        .unwrap();
    assert_eq!(out.frames.len(), 0);
}

#[test]
fn single_column_wraps_each_block() {
    // One column degenerates to a pass-through: the gutter term vanishes and
    // every output region wraps exactly one block at the region's start.
    let node = ColumnsNode::construct(1, boxes(3, 200, 70));
    let direct = boxes(3, 200, 70)
        .layout(&World {}, &styles(25, Dir::Ltr), &simple_regions(200, 500))
        .unwrap();
    let out = node
        .layout(&World {}, &styles(25, Dir::Ltr), &simple_regions(200, 500))
        .unwrap();
    assert_eq!(out.frames.len(), direct.frames.len());
    for (wrapped, child) in out.frames.iter().zip(direct.frames.iter()) {
        assert_eq!(wrapped.items.len(), 1);
        assert_eq!(wrapped.items[0].pos.x, fin(0));
        assert!(frame_eq(&wrapped.items[0].frame, child));
        assert_eq!(wrapped.size.x, fin(200));
        assert_eq!(wrapped.size.y, child.size.y);
    }
}

#[test]
fn infinite_width_is_a_passthrough() {
    // Splitting unbounded space into columns is meaningless: the output is
    // the child's direct layout, unchanged.
    let regions = Regions::new(
        Size::new(Abs::Inf, fin(500)),
        Size::new(Abs::Inf, fin(500)),
        Vec::new(),
        Some(fin(500)),
        Axes::new(false, false),
    );
    let node = ColumnsNode::construct(4, boxes(5, 80, 30));
    let out = node.layout(&World {}, &styles(10, Dir::Ltr), &regions).unwrap();
    let direct = boxes(5, 80, 30)
        .layout(&World {}, &styles(10, Dir::Ltr), &regions)
        .unwrap();
    assert_eq!(out.frames.len(), direct.frames.len());
    for (a, b) in out.frames.iter().zip(direct.frames.iter()) {
        assert!(frame_eq(a, b));
    }
}

#[test]
fn direction_mirrors_placement() {
    // Three equal blocks in three columns, region 300 wide, no gutter: the
    // same frames land at 0/100/200 left-to-right, and mirrored, the first
    // block's right edge at the far edge, right-to-left.
    let ltr = ColumnsNode::construct(3, boxes(3, 100, 50))
        .layout(&World {}, &styles(0, Dir::Ltr), &simple_regions(300, 500))
        .unwrap();
    let rtl = ColumnsNode::construct(3, boxes(3, 100, 50))
        .layout(&World {}, &styles(0, Dir::Rtl), &simple_regions(300, 500))
        .unwrap();
    assert_eq!(ltr.frames.len(), 1);
    assert_eq!(rtl.frames.len(), 1);
    assert_eq!(ltr.frames[0].size, rtl.frames[0].size);
    let lx: Vec<Abs> = ltr.frames[0].items.iter().map(|p| p.pos.x).collect();
    let rx: Vec<Abs> = rtl.frames[0].items.iter().map(|p| p.pos.x).collect();
    assert_eq!(lx, vec![fin(0), fin(100), fin(200)]);
    assert_eq!(rx, vec![fin(200), fin(100), fin(0)]);
}

#[test]
fn repeated_calls_agree() {
    // Layout is pure: identical inputs yield structurally equal fragments.
    let node = ColumnsNode::construct(2, boxes(5, 90, 35));
    let first = node
        .layout(&World {}, &styles(20, Dir::Ltr), &simple_regions(200, 400))
        .unwrap();
    let second = node
        .layout(&World {}, &styles(20, Dir::Ltr), &simple_regions(200, 400))
        .unwrap();
    assert_eq!(first.frames.len(), second.frames.len());
    for (a, b) in first.frames.iter().zip(second.frames.iter()) {
        assert!(frame_eq(a, b));
    }
}

#[test]
fn child_error_propagates() {
    let node = ColumnsNode::construct(2, FailNode {});
    let result = node.layout(&World {}, &styles(0, Dir::Ltr), &simple_regions(300, 500));
    assert!(result.is_err());
}

#[test]
fn pod_regions_stretch_the_backlog() {
    // First height 500, backlog [400], three columns: the pod's backlog is
    // [500, 500, 400, 400, 400] (each original height serving one full row,
    // with the immediate slot dropped), widths become the strip width, and
    // horizontal expansion is forced.
    let regions = Regions::new(
        Size::new(fin(300), fin(500)),
        Size::new(fin(320), fin(500)),
        vec![fin(400)],
        Some(fin(250)),
        Axes::new(false, true),
    );
    let pod = make_pod(&regions, 3, fin(0));
    assert_eq!(pod.first, Size::new(fin(100), fin(500)));
    assert_eq!(pod.base, Size::new(fin(100), fin(500)));
    assert_eq!(pod.backlog, vec![fin(500), fin(500), fin(400), fin(400), fin(400)]);
    assert_eq!(pod.last, Some(fin(250)));
    assert_eq!(pod.expand, Axes::new(true, true));
}

#[test]
fn expanding_regions_keep_offered_heights() {
    // With vertical expansion the output frames take the offered heights
    // instead of growing to their content.
    let regions = Regions::new(
        Size::new(fin(300), fin(500)),
        Size::new(fin(300), fin(500)),
        vec![fin(420)],
        None,
        Axes::new(false, true),
    );
    let node = ColumnsNode::construct(3, boxes(6, 100, 50));
    let out = node.layout(&World {}, &styles(0, Dir::Ltr), &regions).unwrap();
    assert_eq!(out.frames.len(), 2);
    assert_eq!(out.frames[0].size.y, fin(500));
    assert_eq!(out.frames[1].size.y, fin(420));
}

#[test]
fn exhausted_regions_still_place_every_block() {
    // No backlog and no repeating trailing height: the offer runs out after
    // the first region, but every block still finds a place; regions past
    // the offer are taken as zero-height.
    let regions = Regions::new(
        Size::new(fin(200), fin(300)),
        Size::new(fin(200), fin(300)),
        Vec::new(),
        None,
        Axes::new(false, true),
    );
    let node = ColumnsNode::construct(2, boxes(4, 100, 50));
    let out = node.layout(&World {}, &styles(0, Dir::Ltr), &regions).unwrap();
    assert_eq!(out.frames.len(), 2);
    assert_eq!(out.frames[0].size.y, fin(300));
    assert_eq!(out.frames[1].size.y, fin(0));
    let total: usize = out.frames.iter().map(|f| f.items.len()).sum();
    assert_eq!(total, 4);
}

#[test]
fn excessive_gutter_clamps_the_width() {
    // A gutter wider than the region makes the column width non-positive:
    // degenerate geometry, clamped to zero rather than rejected.
    assert_eq!(column_width(fin(100), fin(500), 3), fin(0));
    let node = ColumnsNode::construct(3, boxes(3, 0, 10));
    let out = node
        .layout(&World {}, &styles(500, Dir::Ltr), &simple_regions(100, 300))
        .unwrap();
    assert_eq!(out.frames.len(), 1);
}
