//! The edge point sampler: perturbed boundary points of one side, in
//! percentage coordinates.

use vstd::prelude::*;
use vstd::string::*;
use crate::edge::Edge;
use crate::fixed::{clamp, clamp_spec, div_trunc, lemma_trunc_div_bounds, mul_fixed, trunc_div, FULL, SCALE};
use crate::noise::{lemma_noise_in_unit, noise_spec, seeded_noise};
use crate::params::Props;

verus! {

/// A point in percent of the rectangle's width and height, in fixed point.
#[derive(Clone, Copy, Debug, PartialEq, Eq, Structural)]
pub struct Point {
    pub x: i64,
    pub y: i64,
}

impl Point {
    /// Both coordinates lie between 0 and 100 percent.
    pub open spec fn in_range(self) -> bool {
        0 <= self.x <= FULL && 0 <= self.y <= FULL
    }
}

/// Every point of the sequence lies between 0 and 100 percent.
pub open spec fn all_in_range(pts: Seq<Point>) -> bool {
    forall|i: int| 0 <= i < pts.len() ==> (#[trigger] pts[i]).in_range()
}

/// The seed of the displacement channel of a side.
pub open spec fn channel(seed: Seq<char>, edge: Edge) -> Seq<char> {
    seed + edge.suffix()
}

/// The seed of the along-axis jitter channel of a side.
pub open spec fn jitter_channel(seed: Seq<char>, edge: Edge) -> Seq<char> {
    channel(seed, edge) + "-alt"@
}

/// The displacement perpendicular to the side for sample `i`: the noise times
/// twenty, raised by twenty on even samples, scaled by the intensity, mirrored
/// on far sides, and clamped.
pub open spec fn perpendicular(noise: int, i: int, intensity: int, far: bool) -> int {
    let bump = if i % 2 == 0 { 20 * SCALE as int } else { 0 };
    let adjustment = mul_fixed(noise * 20 + bump, intensity);
    clamp_spec(if far { FULL as int - adjustment } else { adjustment }, 0, FULL as int)
}

/// The position along the side for sample `i` of `count`: the even spacing plus
/// the jitter noise times one step times a hundredth of the skew, clamped.
pub open spec fn along(noise: int, i: int, count: int, skew: int) -> int {
    let nominal = (i * FULL as int) / count;
    let jitter = trunc_div(noise * skew, SCALE as int * count);
    clamp_spec(nominal + jitter, 0, FULL as int)
}

/// The intensity that applies to a side: the first of the pair on horizontal
/// sides, the second on vertical ones.
pub open spec fn intensity_for(edge: Edge, intensity: (i32, i32)) -> int {
    if edge.is_horizontal() {
        intensity.0 as int
    } else {
        intensity.1 as int
    }
}

/// Sample `i` of `count` on a side.
pub open spec fn sample_point(
    i: int,
    count: int,
    edge: Edge,
    seed: Seq<char>,
    intensity: (i32, i32),
    skew: int,
) -> Point {
    let index = i as i64;
    let b = perpendicular(
        noise_spec(channel(seed, edge), index, index),
        i,
        intensity_for(edge, intensity),
        edge.is_far(),
    );
    let a = along(noise_spec(jitter_channel(seed, edge), index, index), i, count, skew);
    if edge.is_horizontal() {
        Point { x: a as i64, y: b as i64 }
    } else {
        Point { x: b as i64, y: a as i64 }
    }
}

/// The sampled points of a side: none for a count of zero, else `count + 1`
/// points from corner to corner.
pub open spec fn sample_spec(
    count: int,
    edge: Edge,
    seed: Seq<char>,
    intensity: (i32, i32),
    skew: int,
) -> Seq<Point> {
    if count <= 0 {
        Seq::empty()
    } else {
        Seq::new((count + 1) as nat, |i: int| sample_point(i, count, edge, seed, intensity, skew))
    }
}

/// Every sampled point lies between 0 and 100 percent, whatever the seed, the
/// intensity and the skew.
pub proof fn lemma_sample_in_range(
    count: int,
    edge: Edge,
    seed: Seq<char>,
    intensity: (i32, i32),
    skew: int,
)
    ensures
        all_in_range(sample_spec(count, edge, seed, intensity, skew)),
{
}

/// The number of sampled points does not depend on the seed, and the points of
/// either seed stay in range.
pub proof fn lemma_seed_keeps_shape(
    count: int,
    edge: Edge,
    seed_a: Seq<char>,
    seed_b: Seq<char>,
    intensity: (i32, i32),
    skew: int,
)
    ensures
        sample_spec(count, edge, seed_a, intensity, skew).len() == sample_spec(
            count,
            edge,
            seed_b,
            intensity,
            skew,
        ).len(),
        all_in_range(sample_spec(count, edge, seed_a, intensity, skew)),
        all_in_range(sample_spec(count, edge, seed_b, intensity, skew)),
{
}

/// Under an intensity between minus and plus one and a quarter, the
/// displacement of a near side stays in the first half of the rectangle and
/// that of a far side in the second half.
pub proof fn lemma_perpendicular_half(noise: int, i: int, intensity: int, far: bool)
    requires
        -(SCALE as int) <= noise <= SCALE as int,
        -12_500 <= intensity <= 12_500,
    ensures
        !far ==> 0 <= perpendicular(noise, i, intensity, far) <= 500_000,
        far ==> 500_000 <= perpendicular(noise, i, intensity, far) <= FULL as int,
{
    let bump = if i % 2 == 0 { 20 * SCALE as int } else { 0 };
    let base = noise * 20 + bump;
    let product = base * intensity;
    assert(-400_000 * 12_500 <= product <= 400_000 * 12_500) by (nonlinear_arith)
        requires
            -200_000 <= base <= 400_000,
            -12_500 <= intensity <= 12_500,
            product == base * intensity,
    ;
    lemma_trunc_div_bounds(product, SCALE as int);
}

/// With a horizontal intensity between minus and plus one and a quarter, no
/// point of a sampled top side lies lower than any point of a sampled bottom
/// side.
pub proof fn lemma_top_above_bottom(
    count_top: int,
    count_bottom: int,
    seed: Seq<char>,
    intensity: (i32, i32),
    skew: int,
    i: int,
    j: int,
)
    requires
        -12_500 <= intensity.0 <= 12_500,
        0 <= i < sample_spec(count_top, Edge::Top, seed, intensity, skew).len(),
        0 <= j < sample_spec(count_bottom, Edge::Bottom, seed, intensity, skew).len(),
    ensures
        sample_spec(count_top, Edge::Top, seed, intensity, skew)[i].y <= 500_000,
        sample_spec(count_bottom, Edge::Bottom, seed, intensity, skew)[j].y >= 500_000,
{
    let ti = i as i64;
    let bj = j as i64;
    lemma_noise_in_unit(channel(seed, Edge::Top), ti, ti);
    lemma_noise_in_unit(channel(seed, Edge::Bottom), bj, bj);
    lemma_perpendicular_half(
        noise_spec(channel(seed, Edge::Top), ti, ti),
        i,
        intensity.0 as int,
        false,
    );
    lemma_perpendicular_half(
        noise_spec(channel(seed, Edge::Bottom), bj, bj),
        j,
        intensity.0 as int,
        true,
    );
}

/// A quotient by a positive number, taken back times the divisor, lies within
/// one divisor under the numerator.
pub proof fn lemma_quotient_bounds(n: int, d: int)
    requires
        0 < d,
    ensures
        (n / d) * d <= n < (n / d) * d + d,
{
    vstd::arithmetic::div_mod::lemma_fundamental_div_mod(n, d);
    vstd::arithmetic::div_mod::lemma_mod_bound(n, d);
    assert((n / d) * d == d * (n / d)) by (nonlinear_arith);
}

/// With a skew of at most fifty percent the positions along a side keep their
/// order: whatever the two noise draws are, sample `i` lies no further along
/// the side than sample `i + 1`.
pub proof fn lemma_positions_ordered(noise_a: int, noise_b: int, i: int, count: int, skew: int)
    requires
        -(SCALE as int) <= noise_a <= SCALE as int,
        -(SCALE as int) <= noise_b <= SCALE as int,
        0 <= i < count,
        0 <= skew <= 500_000,
    ensures
        along(noise_a, i, count, skew) <= along(noise_b, i + 1, count, skew),
{
    let d = SCALE as int * count;
    let top = SCALE as int * skew;
    let q = top / d;
    lemma_quotient_bounds(top, d);
    vstd::arithmetic::div_mod::lemma_div_pos_is_pos(top, d);
    assert(q * count <= skew) by (nonlinear_arith)
        requires
            q * (10_000 * count) <= 10_000 * skew,
    ;
    let pa = noise_a * skew;
    let pb = noise_b * skew;
    assert(-top <= pa <= top && -top <= pb <= top) by (nonlinear_arith)
        requires
            -10_000 <= noise_a <= 10_000,
            -10_000 <= noise_b <= 10_000,
            0 <= skew,
            pa == noise_a * skew,
            pb == noise_b * skew,
            top == 10_000 * skew,
    ;
    let ja = trunc_div(pa, d);
    let jb = trunc_div(pb, d);
    assert(ja <= q) by {
        if pa >= 0 {
            vstd::arithmetic::div_mod::lemma_div_is_ordered(pa, top, d);
        } else {
            vstd::arithmetic::div_mod::lemma_div_pos_is_pos(-pa, d);
        }
    }
    assert(jb >= -q) by {
        if pb >= 0 {
            vstd::arithmetic::div_mod::lemma_div_pos_is_pos(pb, d);
        } else {
            vstd::arithmetic::div_mod::lemma_div_is_ordered(-pb, top, d);
        }
    }
    let a = (i * FULL as int) / count;
    let b = ((i + 1) * FULL as int) / count;
    lemma_quotient_bounds(i * FULL as int, count);
    lemma_quotient_bounds((i + 1) * FULL as int, count);
    assert(b - a >= 2 * q) by (nonlinear_arith)
        requires
            a * count <= i * 1_000_000,
            (i + 1) * 1_000_000 < b * count + count,
            q * count <= skew,
            skew <= 500_000,
            0 < count,
            0 <= q,
    ;
}

/// The coordinate of a point along a side: x on horizontal sides, y on
/// vertical ones.
pub open spec fn along_of_point(p: Point, edge: Edge) -> int {
    if edge.is_horizontal() {
        p.x as int
    } else {
        p.y as int
    }
}

/// With a skew between nought and fifty percent the sampled points of a side
/// run along it in order, whatever the seed and the intensity.
pub proof fn lemma_sample_ordered(
    count: int,
    edge: Edge,
    seed: Seq<char>,
    intensity: (i32, i32),
    skew: int,
    i: int,
)
    requires
        0 <= skew <= 500_000,
        0 <= i < count,
    ensures
        along_of_point(sample_spec(count, edge, seed, intensity, skew)[i], edge) <= along_of_point(
            sample_spec(count, edge, seed, intensity, skew)[i + 1],
            edge,
        ),
{
    let ia = i as i64;
    let ib = (i + 1) as i64;
    lemma_noise_in_unit(jitter_channel(seed, edge), ia, ia);
    lemma_noise_in_unit(jitter_channel(seed, edge), ib, ib);
    lemma_positions_ordered(
        noise_spec(jitter_channel(seed, edge), ia, ia),
        noise_spec(jitter_channel(seed, edge), ib, ib),
        i,
        count,
        skew,
    );
}

/// Computes the perpendicular displacement of one sample.
fn perpendicular_of(noise: i64, even: bool, intensity: i32, far: bool) -> (b: i64)
    requires
        -SCALE <= noise <= SCALE,
    ensures
        forall|i: int| (i % 2 == 0) == even ==> b == perpendicular(noise as int, i, intensity as int, far),
        0 <= b <= FULL,
{
    let bump: i128 = if even { 200_000 } else { 0 };
    let base: i128 = (noise as i128) * 20 + bump;
    let wide: i128 = intensity as i128;
    assert(-400_000 * 0x8000_0000 <= base * wide <= 400_000 * 0x8000_0000) by (nonlinear_arith)
        requires
            -200_000 <= base <= 400_000,
            -0x8000_0000 <= wide <= 0x8000_0000,
    ;
    let adjustment: i128 = div_trunc(base * wide, SCALE as i128);
    proof {
        lemma_trunc_div_bounds((base * wide) as int, SCALE as int);
    }
    let directed: i128 = if far { (FULL as i128) - adjustment } else { adjustment };
    clamp(directed, 0, FULL as i128) as i64
}

/// Computes the position of one sample along the side.
fn along_of(noise: i64, i: usize, count: usize, skew: i32) -> (a: i64)
    requires
        -SCALE <= noise <= SCALE,
        0 < count,
        i <= count,
    ensures
        a == along(noise as int, i as int, count as int, skew as int),
        0 <= a <= FULL,
{
    let nominal: u128 = ((i as u128) * (FULL as u128)) / (count as u128);
    let n: i128 = noise as i128;
    let s: i128 = skew as i128;
    assert(-10_000 * 0x8000_0000 <= n * s <= 10_000 * 0x8000_0000) by (nonlinear_arith)
        requires
            -10_000 <= n <= 10_000,
            -0x8000_0000 <= s <= 0x8000_0000,
    ;
    let jitter: i128 = div_trunc(n * s, (SCALE as i128) * (count as i128));
    proof {
        lemma_trunc_div_bounds((n * s) as int, SCALE as int * count as int);
        assert(0 <= (i as int * FULL as int) / (count as int) <= i as int * FULL as int)
            by (nonlinear_arith)
            requires
                0 <= i as int * FULL as int,
                count as int >= 1,
        ;
    }
    clamp((nominal as i128) + jitter, 0, FULL as i128) as i64
}

/// Samples one side: for a count of zero nothing, else `count + 1` points,
/// evenly spaced along the side, each displaced by two independent noise
/// draws, one across the side and one along it.
pub fn make_points(count: usize, edge: Edge, props: &Props) -> (pts: Vec<Point>)
    requires
        count < usize::MAX,
    ensures
        pts@ == sample_spec(count as int, edge, props.seed@, props.intensity, props.skew as int),
        count == 0 ==> pts@.len() == 0,
        count > 0 ==> pts@.len() == count + 1,
        all_in_range(pts@),
{
    let mut pts: Vec<Point> = Vec::new();
    if count == 0 {
        return pts;
    }
    let horizontal = edge.horizontal();
    let far = edge.far();
    let intensity: i32 = if horizontal { props.intensity.0 } else { props.intensity.1 };
    let mut base = String::from_str(props.seed.as_str());
    base.append(edge.suffix_str());
    let mut alt = base.clone();
    alt.append("-alt");
    let ghost spec_pts = sample_spec(
        count as int,
        edge,
        props.seed@,
        props.intensity,
        props.skew as int,
    );
    let mut i: usize = 0;
    while i <= count
        invariant
            0 < count < usize::MAX,
            i <= count + 1,
            base@ == channel(props.seed@, edge),
            alt@ == jitter_channel(props.seed@, edge),
            horizontal == edge.is_horizontal(),
            far == edge.is_far(),
            intensity as int == intensity_for(edge, props.intensity),
            spec_pts == sample_spec(
                count as int,
                edge,
                props.seed@,
                props.intensity,
                props.skew as int,
            ),
            pts@.len() == i,
            forall|k: int| 0 <= k < i ==> pts@[k] == spec_pts[k],
        decreases count + 1 - i,
    {
        let index: i64 = i as i64;
        let noise = seeded_noise(base.as_str(), index, index);
        let noise2 = seeded_noise(alt.as_str(), index, index);
        let b = perpendicular_of(noise, i % 2 == 0, intensity, far);
        let a = along_of(noise2, i, count, props.skew);
        let p = if horizontal { Point { x: a, y: b } } else { Point { x: b, y: a } };
        proof {
            assert(p == sample_point(
                i as int,
                count as int,
                edge,
                props.seed@,
                props.intensity,
                props.skew as int,
            ));
        }
        pts.push(p);
        i += 1;
    }
    proof {
        assert(pts@ =~= spec_pts);
    }
    pts
}

} // verus!
