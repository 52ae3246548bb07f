//! The outer and inner outlines of a bordered region: counts and enabled
//! sides, sampling, stitching, and the inner offset.

use vstd::prelude::*;
use vstd::string::*;
use crate::edge::{has_edge, Edge};
use crate::fixed::{clamp, clamp_spec, div_trunc, lemma_trunc_div_bounds, mul_fixed, FULL, SCALE};
use crate::noise::{noise_spec, seeded_noise};
use crate::params::{BorderWidth, Counts, Props, PropsModel};
use crate::sampler::{
    all_in_range, lemma_sample_in_range, lemma_top_above_bottom, make_points, sample_spec, Point,
};
use crate::stitch::{
    lemma_corner_continuity, lemma_stitch_in_range, stitch, stitch_spec, Outline, Sides,
};

verus! {

/// One sample count per side.
#[derive(Clone, Copy, Debug, PartialEq, Eq, Structural)]
pub struct EdgeCounts {
    pub top: usize,
    pub bottom: usize,
    pub right: usize,
    pub left: usize,
}

/// Which sides are enabled.
#[derive(Clone, Copy, Debug, PartialEq, Eq, Structural)]
pub struct Enabled {
    pub top: bool,
    pub bottom: bool,
    pub right: bool,
    pub left: bool,
}

impl Enabled {
    /// Whether side `e` is enabled.
    pub open spec fn has(self, e: Edge) -> bool {
        match e {
            Edge::Top => self.top,
            Edge::Bottom => self.bottom,
            Edge::Right => self.right,
            Edge::Left => self.left,
        }
    }
}

/// The count that a side gets where the caller gave none: one sample for
/// every twenty units of the extent, rounded down; none for an extent that is
/// not positive.
pub open spec fn default_count(extent: int) -> int {
    if extent <= 0 {
        0
    } else {
        extent / (20 * SCALE as int)
    }
}

/// The count of each side: a pair applies its first number to top and bottom
/// and its second to right and left; without counts each side gets the
/// default for the extent it runs along.
pub open spec fn counts_spec(counts: Option<Counts>, width: int, height: int) -> EdgeCounts {
    match counts {
        Some(Counts::TBRL(t, b, r, l)) => EdgeCounts { top: t, bottom: b, right: r, left: l },
        Some(Counts::XY(x, y)) => EdgeCounts { top: x, bottom: x, right: y, left: y },
        None => EdgeCounts {
            top: default_count(width) as usize,
            bottom: default_count(width) as usize,
            right: default_count(height) as usize,
            left: default_count(height) as usize,
        },
    }
}

/// A side is enabled where the caller lists it and its count is not zero.
pub open spec fn enabled_spec(edges: Seq<Edge>, counts: EdgeCounts) -> Enabled {
    Enabled {
        top: edges.contains(Edge::Top) && counts.top != 0,
        bottom: edges.contains(Edge::Bottom) && counts.bottom != 0,
        right: edges.contains(Edge::Right) && counts.right != 0,
        left: edges.contains(Edge::Left) && counts.left != 0,
    }
}

/// The counts fit the machine: each leaves room for the one point more than
/// the count that a side holds.
pub open spec fn counts_fit(counts: Option<Counts>) -> bool {
    match counts {
        Some(Counts::TBRL(t, b, r, l)) => t < usize::MAX && b < usize::MAX && r < usize::MAX && l
            < usize::MAX,
        Some(Counts::XY(x, y)) => x < usize::MAX && y < usize::MAX,
        None => true,
    }
}

/// The sampled points of one side: those of the sampler where the side is
/// enabled, none where it is not.
pub open spec fn sampled_side(e: Edge, count: usize, on: bool, props: PropsModel) -> Seq<Point> {
    if on {
        sample_spec(count as int, e, props.seed, props.intensity, props.skew as int)
    } else {
        Seq::empty()
    }
}

/// The enabled sides of a region.
pub open spec fn enabled_for(width: int, height: int, props: PropsModel) -> Enabled {
    enabled_spec(props.edges, counts_spec(props.counts, width, height))
}

/// The four sampled sides of a region, before stitching.
pub open spec fn sampled_spec(width: int, height: int, props: PropsModel) -> Outline {
    let counts = counts_spec(props.counts, width, height);
    let on = enabled_spec(props.edges, counts);
    Outline {
        top: sampled_side(Edge::Top, counts.top, on.top, props),
        right: sampled_side(Edge::Right, counts.right, on.right, props),
        bottom: sampled_side(Edge::Bottom, counts.bottom, on.bottom, props),
        left: sampled_side(Edge::Left, counts.left, on.left, props),
    }
}

/// The outer outline of a region.
#[verifier::opaque]
pub open spec fn outer_spec(width: int, height: int, props: PropsModel) -> Outline {
    stitch_spec(sampled_spec(width, height, props))
}

/// The width ratio: a ninetieth of the width, rounded down to thousandths.
pub open spec fn width_ratio(width: int) -> int {
    (width / 900) * 10
}

/// The border width that the caller asks for on a side.
pub open spec fn base_width(bw: BorderWidth, e: Edge) -> int {
    match bw {
        BorderWidth::Single(v) => v as int,
        BorderWidth::Four { t, b, r, l } => match e {
            Edge::Top => t as int,
            Edge::Bottom => b as int,
            Edge::Right => r as int,
            Edge::Left => l as int,
        },
        BorderWidth::WidthHeight(w, h) => if e.is_horizontal() {
            h as int
        } else {
            w as int
        },
    }
}

/// The variance that applies to a side: the second of the pair on top and
/// bottom, the first on right and left.
pub open spec fn variance_for(e: Edge, variance: (i32, i32)) -> int {
    if e.is_horizontal() {
        variance.1 as int
    } else {
        variance.0 as int
    }
}

/// The seed of the thickness channel.
pub open spec fn thickness_channel(seed: Seq<char>) -> Seq<char> {
    seed + "-alt2"@
}

/// The offset of point `idx` of a side toward the interior: zero on a side
/// that is not enabled; else the side's border width times the width ratio,
/// plus the variance times the thickness noise raised by a half.
pub open spec fn offset_at(idx: int, e: Edge, on: bool, width: int, props: PropsModel) -> int {
    if !on {
        0
    } else {
        let noise = noise_spec(thickness_channel(props.seed), idx as i64, idx as i64);
        mul_fixed(width_ratio(width), base_width(props.border_width, e)) + mul_fixed(
            SCALE as int / 2 + noise,
            variance_for(e, props.width_variance),
        )
    }
}

/// A point moved toward the interior by `off`: left increases x, right
/// decreases x, top increases y, bottom decreases y. The moved coordinate is
/// clamped to the rectangle.
pub open spec fn inset_point(p: Point, e: Edge, off: int) -> Point {
    match e {
        Edge::Left => Point { x: clamp_spec(p.x + off, 0, FULL as int) as i64, y: p.y },
        Edge::Right => Point { x: clamp_spec(p.x - off, 0, FULL as int) as i64, y: p.y },
        Edge::Top => Point { x: p.x, y: clamp_spec(p.y + off, 0, FULL as int) as i64 },
        Edge::Bottom => Point { x: p.x, y: clamp_spec(p.y - off, 0, FULL as int) as i64 },
    }
}

/// The inner sequence of a side: each outer point moved by the offset of its
/// index, and kept inside the rectangle.
pub open spec fn inset_spec(outer: Seq<Point>, e: Edge, on: bool, width: int, props: PropsModel) -> Seq<
    Point,
> {
    Seq::new(outer.len(), |i: int| inset_point(outer[i], e, offset_at(i, e, on, width, props)))
}

/// The inner outline of a region.
#[verifier::opaque]
pub open spec fn inner_spec(width: int, height: int, props: PropsModel) -> Outline {
    let outer = outer_spec(width, height, props);
    let on = enabled_for(width, height, props);
    Outline {
        top: inset_spec(outer.top, Edge::Top, on.top, width, props),
        right: inset_spec(outer.right, Edge::Right, on.right, width, props),
        bottom: inset_spec(outer.bottom, Edge::Bottom, on.bottom, width, props),
        left: inset_spec(outer.left, Edge::Left, on.left, width, props),
    }
}

/// The straight line that stands for a side without samples.
pub open spec fn straight_line(e: Edge) -> Seq<Point> {
    match e {
        Edge::Top => seq![Point { x: 0, y: 0 }, Point { x: FULL, y: 0 }],
        Edge::Right => seq![Point { x: FULL, y: 0 }, Point { x: FULL, y: FULL }],
        Edge::Bottom => seq![Point { x: 0, y: FULL }, Point { x: FULL, y: FULL }],
        Edge::Left => seq![Point { x: 0, y: 0 }, Point { x: 0, y: FULL }],
    }
}

impl Outline {
    /// The sequence of side `e`.
    pub open spec fn side(self, e: Edge) -> Seq<Point> {
        match e {
            Edge::Top => self.top,
            Edge::Right => self.right,
            Edge::Bottom => self.bottom,
            Edge::Left => self.left,
        }
    }
}

/// Every coordinate of the outer outline lies between 0 and 100 percent,
/// whatever the seed, the intensity, the skew and the variance.
pub proof fn lemma_outer_in_range(width: int, height: int, props: PropsModel)
    ensures
        all_in_range(outer_spec(width, height, props).top),
        all_in_range(outer_spec(width, height, props).right),
        all_in_range(outer_spec(width, height, props).bottom),
        all_in_range(outer_spec(width, height, props).left),
{
    reveal(outer_spec);
    let counts = counts_spec(props.counts, width, height);
    lemma_sample_in_range(counts.top as int, Edge::Top, props.seed, props.intensity, props.skew as int);
    lemma_sample_in_range(counts.right as int, Edge::Right, props.seed, props.intensity, props.skew as int);
    lemma_sample_in_range(counts.bottom as int, Edge::Bottom, props.seed, props.intensity, props.skew as int);
    lemma_sample_in_range(counts.left as int, Edge::Left, props.seed, props.intensity, props.skew as int);
    lemma_stitch_in_range(sampled_spec(width, height, props));
}

/// Moving the points of a sequence in range leaves them in range, whatever
/// the offsets are.
pub proof fn lemma_inset_in_range(
    outer: Seq<Point>,
    e: Edge,
    on: bool,
    width: int,
    props: PropsModel,
)
    requires
        all_in_range(outer),
    ensures
        all_in_range(inset_spec(outer, e, on, width, props)),
        inset_spec(outer, e, on, width, props).len() == outer.len(),
{
    let inner = inset_spec(outer, e, on, width, props);
    assert forall|i: int| 0 <= i < inner.len() implies (#[trigger] inner[i]).in_range() by {
        assert(outer[i].in_range());
    }
}

/// The range invariant: every coordinate of the outer and of the inner
/// outline lies between 0 and 100 percent, whatever the size, the seed, the
/// intensity, the skew, the border width and the variance.
pub proof fn lemma_outlines_in_range(width: int, height: int, props: PropsModel)
    ensures
        all_in_range(outer_spec(width, height, props).top),
        all_in_range(outer_spec(width, height, props).right),
        all_in_range(outer_spec(width, height, props).bottom),
        all_in_range(outer_spec(width, height, props).left),
        all_in_range(inner_spec(width, height, props).top),
        all_in_range(inner_spec(width, height, props).right),
        all_in_range(inner_spec(width, height, props).bottom),
        all_in_range(inner_spec(width, height, props).left),
{
    lemma_outer_in_range(width, height, props);
    reveal(inner_spec);
    let outer = outer_spec(width, height, props);
    let on = enabled_for(width, height, props);
    lemma_inset_in_range(outer.top, Edge::Top, on.top, width, props);
    lemma_inset_in_range(outer.right, Edge::Right, on.right, width, props);
    lemma_inset_in_range(outer.bottom, Edge::Bottom, on.bottom, width, props);
    lemma_inset_in_range(outer.left, Edge::Left, on.left, width, props);
}

/// A side that is not enabled, because the caller does not list it or because
/// its count is zero, has the straight line of its side as outer sequence, and
/// an inner sequence equal to the outer one.
pub proof fn lemma_disabled_side(width: int, height: int, props: PropsModel, e: Edge)
    requires
        !enabled_for(width, height, props).has(e),
    ensures
        outer_spec(width, height, props).side(e) == straight_line(e),
        inner_spec(width, height, props).side(e) == straight_line(e),
{
    reveal(outer_spec);
    reveal(inner_spec);
    let outer = outer_spec(width, height, props);
    let inner = inner_spec(width, height, props);
    assert(outer.side(e) =~= straight_line(e));
    assert(inner.side(e) =~= outer.side(e));
}

/// The count of side `e`.
pub open spec fn count_of(counts: EdgeCounts, e: Edge) -> int {
    match e {
        Edge::Top => counts.top as int,
        Edge::Bottom => counts.bottom as int,
        Edge::Right => counts.right as int,
        Edge::Left => counts.left as int,
    }
}

/// The number of points of each side. A disabled side has two points. An
/// enabled top or bottom side has one point more than its count; an enabled
/// left or right side, whose ends are trimmed and joined to the corners, has
/// at least one point and at most three more than its count. Each inner
/// sequence is as long as the outer sequence of its side.
pub proof fn lemma_side_lengths(width: int, height: int, props: PropsModel, e: Edge)
    ensures
        ({
            let on = enabled_for(width, height, props).has(e);
            let count = count_of(counts_spec(props.counts, width, height), e);
            let outer = outer_spec(width, height, props).side(e);
            let inner = inner_spec(width, height, props).side(e);
            &&& inner.len() == outer.len()
            &&& !on ==> outer.len() == 2
            &&& on && e.is_horizontal() ==> outer.len() == count + 1
            &&& on && !e.is_horizontal() ==> 1 <= outer.len() <= count + 3
        }),
{
    reveal(outer_spec);
    reveal(inner_spec);
    let counts = counts_spec(props.counts, width, height);
    lemma_sample_in_range(counts.top as int, Edge::Top, props.seed, props.intensity, props.skew as int);
    lemma_sample_in_range(counts.right as int, Edge::Right, props.seed, props.intensity, props.skew as int);
    lemma_sample_in_range(counts.bottom as int, Edge::Bottom, props.seed, props.intensity, props.skew as int);
    lemma_sample_in_range(counts.left as int, Edge::Left, props.seed, props.intensity, props.skew as int);
    lemma_stitch_in_range(sampled_spec(width, height, props));
}

/// Corner continuity of a region. With a horizontal intensity between minus
/// and plus one and a quarter, any two adjacent enabled sides share their corner
/// point in the outer outline: the left side runs from the first point of the
/// top to the first point of the bottom, the right side from the last point of
/// the top to the last point of the bottom.
pub proof fn lemma_corners_meet(width: int, height: int, props: PropsModel)
    requires
        -12_500 <= props.intensity.0 <= 12_500,
    ensures
        ({
            let on = enabled_for(width, height, props);
            let outer = outer_spec(width, height, props);
            &&& on.top && on.left ==> outer.left[0] == outer.top[0]
            &&& on.left && on.bottom ==> outer.left.last() == outer.bottom[0]
            &&& on.bottom && on.right ==> outer.right.last() == outer.bottom.last()
            &&& on.top && on.right ==> outer.right[0] == outer.top.last()
        }),
{
    reveal(outer_spec);
    let counts = counts_spec(props.counts, width, height);
    let on = enabled_for(width, height, props);
    let sampled = sampled_spec(width, height, props);
    lemma_corner_continuity(sampled);
    if on.top && on.bottom {
        lemma_top_above_bottom(
            counts.top as int,
            counts.bottom as int,
            props.seed,
            props.intensity,
            props.skew as int,
            0,
            0,
        );
        lemma_top_above_bottom(
            counts.top as int,
            counts.bottom as int,
            props.seed,
            props.intensity,
            props.skew as int,
            counts.top as int,
            counts.bottom as int,
        );
    }
}

/// The outer and the inner sequences of the four sides.
#[derive(Debug)]
pub struct PathResult {
    pub outer_top: Vec<Point>,
    pub outer_right: Vec<Point>,
    pub outer_bottom: Vec<Point>,
    pub outer_left: Vec<Point>,
    pub inner_top: Vec<Point>,
    pub inner_right: Vec<Point>,
    pub inner_bottom: Vec<Point>,
    pub inner_left: Vec<Point>,
}

impl PathResult {
    /// The outer outline.
    pub open spec fn outer(&self) -> Outline {
        Outline {
            top: self.outer_top@,
            right: self.outer_right@,
            bottom: self.outer_bottom@,
            left: self.outer_left@,
        }
    }

    /// The inner outline.
    pub open spec fn inner(&self) -> Outline {
        Outline {
            top: self.inner_top@,
            right: self.inner_right@,
            bottom: self.inner_bottom@,
            left: self.inner_left@,
        }
    }
}

/// Whether the counts fit the machine.
pub fn counts_fit_exec(counts: &Option<Counts>) -> (b: bool)
    ensures
        b == counts_fit(*counts),
{
    match counts {
        Some(Counts::TBRL(t, b, r, l)) => *t < usize::MAX && *b < usize::MAX && *r < usize::MAX
            && *l < usize::MAX,
        Some(Counts::XY(x, y)) => *x < usize::MAX && *y < usize::MAX,
        None => true,
    }
}

/// The count for an extent where the caller gave none.
pub fn default_count_of(extent: i32) -> (c: usize)
    ensures
        c == default_count(extent as int),
{
    if extent <= 0 {
        0
    } else {
        (extent / 200_000) as usize
    }
}

/// Resolves the count of each side.
pub fn resolve_counts(counts: &Option<Counts>, width: i32, height: i32) -> (c: EdgeCounts)
    ensures
        c == counts_spec(*counts, width as int, height as int),
{
    match counts {
        Some(Counts::TBRL(t, b, r, l)) => EdgeCounts { top: *t, bottom: *b, right: *r, left: *l },
        Some(Counts::XY(x, y)) => EdgeCounts { top: *x, bottom: *x, right: *y, left: *y },
        None => {
            let cx = default_count_of(width);
            let cy = default_count_of(height);
            EdgeCounts { top: cx, bottom: cx, right: cy, left: cy }
        },
    }
}

/// Decides which sides are enabled: those that the caller lists and whose
/// count is not zero.
pub fn enabled_edges(edges: &Vec<Edge>, counts: &EdgeCounts) -> (on: Enabled)
    ensures
        on == enabled_spec(edges@, *counts),
{
    Enabled {
        top: has_edge(edges, Edge::Top) && counts.top != 0,
        bottom: has_edge(edges, Edge::Bottom) && counts.bottom != 0,
        right: has_edge(edges, Edge::Right) && counts.right != 0,
        left: has_edge(edges, Edge::Left) && counts.left != 0,
    }
}

/// Computes the width ratio.
pub fn width_ratio_of(width: i32) -> (r: i64)
    ensures
        r == width_ratio(width as int),
        -24_000_000 <= r <= 24_000_000,
{
    let w: i64 = width as i64;
    let q: i64 = if w >= 0 {
        w / 900
    } else {
        -((-w - 1) / 900) - 1
    };
    q * 10
}

/// The border width asked for on a side.
pub fn base_width_of(bw: &BorderWidth, e: Edge) -> (w: i32)
    ensures
        w == base_width(*bw, e),
{
    match bw {
        BorderWidth::Single(v) => *v,
        BorderWidth::Four { t, b, r, l } => match e {
            Edge::Top => *t,
            Edge::Bottom => *b,
            Edge::Right => *r,
            Edge::Left => *l,
        },
        BorderWidth::WidthHeight(w, h) => if e.horizontal() {
            *h
        } else {
            *w
        },
    }
}

/// The two parts of the offset that do not depend on the point: the border
/// width of the side times the width ratio, and the variance of the side.
fn offset_parts(e: Edge, width: i32, props: &Props) -> (parts: (i128, i128))
    ensures
        parts.0 == mul_fixed(width_ratio(width as int), base_width(props.border_width, e)),
        -24_000_000 * 0x8000_0000 <= parts.0 <= 24_000_000 * 0x8000_0000,
        parts.1 == variance_for(e, props.width_variance),
{
    let ratio: i128 = width_ratio_of(width) as i128;
    let base: i128 = base_width_of(&props.border_width, e) as i128;
    assert(-24_000_000 * 0x8000_0000 <= ratio * base <= 24_000_000 * 0x8000_0000)
        by (nonlinear_arith)
        requires
            -24_000_000 <= ratio <= 24_000_000,
            -0x8000_0000 <= base <= 0x8000_0000,
    ;
    proof {
        lemma_trunc_div_bounds((ratio * base) as int, SCALE as int);
    }
    let fixed_part: i128 = div_trunc(ratio * base, SCALE as i128);
    let variance: i128 = if e.horizontal() {
        props.width_variance.1 as i128
    } else {
        props.width_variance.0 as i128
    };
    (fixed_part, variance)
}

/// The part of the offset that the thickness noise of a point adds: the
/// variance times the noise raised by a half.
fn noise_part(noise: i64, variance: i128) -> (part: i128)
    requires
        -SCALE <= noise <= SCALE,
        -0x8000_0000 <= variance <= 0x8000_0000,
    ensures
        part == mul_fixed(SCALE as int / 2 + noise, variance as int),
        -15_000 * 0x8000_0000 <= part <= 15_000 * 0x8000_0000,
{
    let lifted: i128 = 5_000 + (noise as i128);
    assert(-15_000 * 0x8000_0000 <= lifted * variance <= 15_000 * 0x8000_0000)
        by (nonlinear_arith)
        requires
            -5_000 <= lifted <= 15_000,
            -0x8000_0000 <= variance <= 0x8000_0000,
    ;
    proof {
        lemma_trunc_div_bounds((lifted * variance) as int, SCALE as int);
    }
    div_trunc(lifted * variance, SCALE as i128)
}

/// Moves one point toward the interior and keeps it inside the rectangle.
fn move_point(p: Point, e: Edge, off: i128) -> (q: Point)
    requires
        -0x1_0000_0000_0000_0000_0000 <= off <= 0x1_0000_0000_0000_0000_0000,
    ensures
        q == inset_point(p, e, off as int),
{
    match e {
        Edge::Left => Point { x: clamp((p.x as i128) + off, 0, FULL as i128) as i64, y: p.y },
        Edge::Right => Point { x: clamp((p.x as i128) - off, 0, FULL as i128) as i64, y: p.y },
        Edge::Top => Point { x: p.x, y: clamp((p.y as i128) + off, 0, FULL as i128) as i64 },
        Edge::Bottom => Point { x: p.x, y: clamp((p.y as i128) - off, 0, FULL as i128) as i64 },
    }
}

/// The inner-offset calculator for one side: moves each point of the outer
/// sequence toward the interior by the offset of its index, and keeps the
/// moved coordinate between 0 and 100 percent.
pub fn inset(outer: &Vec<Point>, e: Edge, on: bool, width: i32, props: &Props) -> (inner: Vec<Point>)
    ensures
        inner@ == inset_spec(outer@, e, on, width as int, props@),
        inner@.len() == outer@.len(),
        all_in_range(outer@) ==> all_in_range(inner@),
{
    let (fixed_part, variance) = offset_parts(e, width, props);
    let mut channel = String::from_str(props.seed.as_str());
    channel.append("-alt2");
    let mut inner: Vec<Point> = Vec::new();
    let mut i: usize = 0;
    while i < outer.len()
        invariant
            i <= outer@.len(),
            channel@ == thickness_channel(props.seed@),
            fixed_part == mul_fixed(width_ratio(width as int), base_width(props.border_width, e)),
            -24_000_000 * 0x8000_0000 <= fixed_part <= 24_000_000 * 0x8000_0000,
            variance == variance_for(e, props.width_variance),
            inner@.len() == i,
            forall|k: int|
                0 <= k < i ==> inner@[k] == inset_point(
                    outer@[k],
                    e,
                    offset_at(k, e, on, width as int, props@),
                ),
        decreases outer@.len() - i,
    {
        let off: i128 = if !on {
            0
        } else {
            let index: i64 = i as i64;
            let noise = seeded_noise(channel.as_str(), index, index);
            fixed_part + noise_part(noise, variance)
        };
        assert(off == offset_at(i as int, e, on, width as int, props@));
        let q = move_point(outer[i], e, off);
        inner.push(q);
        i += 1;
    }
    proof {
        assert(inner@ =~= inset_spec(outer@, e, on, width as int, props@));
        if all_in_range(outer@) {
            lemma_inset_in_range(outer@, e, on, width as int, props@);
        }
    }
    inner
}

/// Samples one side where it is enabled.
fn sample_side(e: Edge, count: usize, on: bool, props: &Props) -> (pts: Vec<Point>)
    requires
        count < usize::MAX,
    ensures
        pts@ == sampled_side(e, count, on, props@),
{
    if on {
        make_points(count, e, props)
    } else {
        Vec::new()
    }
}

/// Builds the outer and the inner outline of a region of the given size:
/// resolves counts and enabled sides, samples the enabled sides, stitches the
/// corners, and insets each side.
pub fn create_path(width: i32, height: i32, props: &Props) -> (paths: PathResult)
    requires
        counts_fit(props.counts),
    ensures
        paths.outer() == outer_spec(width as int, height as int, props@),
        paths.inner() == inner_spec(width as int, height as int, props@),
        all_in_range(paths.outer_top@),
        all_in_range(paths.outer_right@),
        all_in_range(paths.outer_bottom@),
        all_in_range(paths.outer_left@),
        all_in_range(paths.inner_top@),
        all_in_range(paths.inner_right@),
        all_in_range(paths.inner_bottom@),
        all_in_range(paths.inner_left@),
        paths.inner_top@.len() == paths.outer_top@.len(),
        paths.inner_right@.len() == paths.outer_right@.len(),
        paths.inner_bottom@.len() == paths.outer_bottom@.len(),
        paths.inner_left@.len() == paths.outer_left@.len(),
{
    let counts = resolve_counts(&props.counts, width, height);
    let on = enabled_edges(&props.edges, &counts);
    let sampled = Sides {
        top: sample_side(Edge::Top, counts.top, on.top, props),
        right: sample_side(Edge::Right, counts.right, on.right, props),
        bottom: sample_side(Edge::Bottom, counts.bottom, on.bottom, props),
        left: sample_side(Edge::Left, counts.left, on.left, props),
    };
    proof {
        reveal(outer_spec);
        reveal(inner_spec);
        assert(sampled@ == sampled_spec(width as int, height as int, props@));
        lemma_outer_in_range(width as int, height as int, props@);
    }
    let outer = stitch(sampled);
    let inner_left = inset(&outer.left, Edge::Left, on.left, width, props);
    let inner_bottom = inset(&outer.bottom, Edge::Bottom, on.bottom, width, props);
    let inner_right = inset(&outer.right, Edge::Right, on.right, width, props);
    let inner_top = inset(&outer.top, Edge::Top, on.top, width, props);
    let Sides { top, right, bottom, left } = outer;
    PathResult {
        outer_top: top,
        outer_right: right,
        outer_bottom: bottom,
        outer_left: left,
        inner_top,
        inner_right,
        inner_bottom,
        inner_left,
    }
}

} // verus!
