//! The boundary stitcher: reconciles the corners that adjacent sampled sides
//! share, and replaces sides that were not sampled by straight lines.

use vstd::prelude::*;
use crate::fixed::FULL;
use crate::sampler::{all_in_range, Point};

verus! {

/// The four point sequences of an outline, one per side.
pub struct Outline {
    pub top: Seq<Point>,
    pub right: Seq<Point>,
    pub bottom: Seq<Point>,
    pub left: Seq<Point>,
}

/// Four point sequences, one per side.
#[derive(Debug)]
pub struct Sides {
    pub top: Vec<Point>,
    pub right: Vec<Point>,
    pub bottom: Vec<Point>,
    pub left: Vec<Point>,
}

impl View for Sides {
    type V = Outline;

    open spec fn view(&self) -> Outline {
        Outline { top: self.top@, right: self.right@, bottom: self.bottom@, left: self.left@ }
    }
}

/// `s` without its leading points whose y lies under `bound`.
pub open spec fn skip_low(s: Seq<Point>, bound: int) -> Seq<Point>
    decreases s.len(),
{
    if s.len() > 0 && s[0].y < bound {
        skip_low(s.drop_first(), bound)
    } else {
        s
    }
}

/// `s` without its trailing points whose y lies over `bound`.
pub open spec fn drop_high(s: Seq<Point>, bound: int) -> Seq<Point>
    decreases s.len(),
{
    if s.len() > 0 && s.last().y > bound {
        drop_high(s.drop_last(), bound)
    } else {
        s
    }
}

/// `s` trimmed at the front to start no lower than `corner`, with `corner`
/// spliced on in front.
pub open spec fn joined_front(s: Seq<Point>, corner: Point) -> Seq<Point> {
    seq![corner] + skip_low(s, corner.y as int)
}

/// `s` trimmed at the back to end no higher than `corner`, with `corner`
/// appended.
pub open spec fn joined_back(s: Seq<Point>, corner: Point) -> Seq<Point> {
    drop_high(s, corner.y as int).push(corner)
}

/// The left side after the top-left and then the bottom-left corner were
/// resolved. A corner is resolved only where both of its sides hold points.
pub open spec fn stitched_left(top: Seq<Point>, bottom: Seq<Point>, left: Seq<Point>) -> Seq<Point> {
    let first = if top.len() > 0 && left.len() > 0 {
        joined_front(left, top[0])
    } else {
        left
    };
    if bottom.len() > 0 && first.len() > 0 {
        joined_back(first, bottom[0])
    } else {
        first
    }
}

/// The right side after the bottom-right and then the top-right corner were
/// resolved.
pub open spec fn stitched_right(top: Seq<Point>, bottom: Seq<Point>, right: Seq<Point>) -> Seq<
    Point,
> {
    let first = if bottom.len() > 0 && right.len() > 0 {
        joined_back(right, bottom.last())
    } else {
        right
    };
    if top.len() > 0 && first.len() > 0 {
        joined_front(first, top.last())
    } else {
        first
    }
}

/// `s`, or the straight line from `a` to `b` where `s` is empty.
pub open spec fn or_line(s: Seq<Point>, a: Point, b: Point) -> Seq<Point> {
    if s.len() == 0 {
        seq![a, b]
    } else {
        s
    }
}

/// The stitched outline of four sampled sides: corners resolved in the order
/// top-left, bottom-left, bottom-right, top-right; empty sides replaced by
/// straight lines.
pub open spec fn stitch_spec(sampled: Outline) -> Outline {
    Outline {
        top: or_line(sampled.top, Point { x: 0, y: 0 }, Point { x: FULL, y: 0 }),
        right: or_line(
            stitched_right(sampled.top, sampled.bottom, sampled.right),
            Point { x: FULL, y: 0 },
            Point { x: FULL, y: FULL },
        ),
        bottom: or_line(sampled.bottom, Point { x: 0, y: FULL }, Point { x: FULL, y: FULL }),
        left: or_line(
            stitched_left(sampled.top, sampled.bottom, sampled.left),
            Point { x: 0, y: 0 },
            Point { x: 0, y: FULL },
        ),
    }
}

/// What is left after trimming the front is the tail of the sequence.
pub proof fn lemma_skip_low_suffix(s: Seq<Point>, bound: int)
    ensures
        skip_low(s, bound).len() <= s.len(),
        skip_low(s, bound) == s.skip(s.len() - skip_low(s, bound).len()),
        skip_low(s, bound).len() > 0 ==> skip_low(s, bound)[0].y >= bound,
        s.len() > 0 && s.last().y >= bound ==> skip_low(s, bound).len() > 0,
    decreases s.len(),
{
    if s.len() > 0 && s[0].y < bound {
        let t = s.drop_first();
        lemma_skip_low_suffix(t, bound);
        let k = t.len() - skip_low(t, bound).len();
        assert(t.skip(k) =~= s.skip(k + 1));
        if s.last().y >= bound {
            assert(t.len() > 0);
            assert(t.last() == s.last());
        }
    } else {
        assert(s.skip(0) =~= s);
    }
}

/// What is left after trimming the back is the head of the sequence.
pub proof fn lemma_drop_high_prefix(s: Seq<Point>, bound: int)
    ensures
        drop_high(s, bound).len() <= s.len(),
        drop_high(s, bound) == s.take(drop_high(s, bound).len() as int),
        drop_high(s, bound).len() > 0 ==> drop_high(s, bound).last().y <= bound,
        s.len() > 0 && s[0].y <= bound ==> drop_high(s, bound).len() > 0,
    decreases s.len(),
{
    if s.len() > 0 && s.last().y > bound {
        let t = s.drop_last();
        lemma_drop_high_prefix(t, bound);
        let k = drop_high(t, bound).len() as int;
        assert(t.take(k) =~= s.take(k));
        if s[0].y <= bound {
            assert(t.len() > 0);
            assert(t[0] == s[0]);
        }
    } else {
        assert(s.take(s.len() as int) =~= s);
    }
}

/// Stitching adds at most two points to a side, and every point of the
/// stitched outline is a point of a sampled side or a corner of the rectangle:
/// where the sampled points are in range, so is the outline.
pub proof fn lemma_stitch_in_range(sampled: Outline)
    requires
        all_in_range(sampled.top),
        all_in_range(sampled.right),
        all_in_range(sampled.bottom),
        all_in_range(sampled.left),
    ensures
        all_in_range(stitch_spec(sampled).top),
        all_in_range(stitch_spec(sampled).right),
        all_in_range(stitch_spec(sampled).bottom),
        all_in_range(stitch_spec(sampled).left),
        1 <= stitch_spec(sampled).left.len() <= sampled.left.len() + 2,
        1 <= stitch_spec(sampled).right.len() <= sampled.right.len() + 2,
        stitch_spec(sampled).top.len() == if sampled.top.len() == 0 { 2 } else { sampled.top.len() },
        stitch_spec(sampled).bottom.len() == if sampled.bottom.len() == 0 { 2 } else { sampled.bottom.len() },
{
    let top = sampled.top;
    let bottom = sampled.bottom;
    // left
    let l1 = if top.len() > 0 && sampled.left.len() > 0 {
        joined_front(sampled.left, top[0])
    } else {
        sampled.left
    };
    lemma_skip_low_suffix(sampled.left, if top.len() > 0 { top[0].y as int } else { 0 });
    assert(all_in_range(l1));
    assert(l1.len() <= sampled.left.len() + 1);
    lemma_drop_high_prefix(l1, if bottom.len() > 0 { bottom[0].y as int } else { 0 });
    let l2 = stitched_left(top, bottom, sampled.left);
    assert(all_in_range(l2));
    // right
    let r1 = if bottom.len() > 0 && sampled.right.len() > 0 {
        joined_back(sampled.right, bottom.last())
    } else {
        sampled.right
    };
    lemma_drop_high_prefix(sampled.right, if bottom.len() > 0 { bottom.last().y as int } else { 0 });
    assert(all_in_range(r1));
    assert(r1.len() <= sampled.right.len() + 1);
    lemma_skip_low_suffix(r1, if top.len() > 0 { top.last().y as int } else { 0 });
    let r2 = stitched_right(top, bottom, sampled.right);
    assert(all_in_range(r2));
}

/// Corner continuity. Where two adjacent sides were both sampled, their
/// stitched sequences share the corner point: the left side ends on the first
/// point of the bottom and the right side starts on the last point of the top,
/// always; the left side starts on the first point of the top, and the right
/// side ends on the last point of the bottom, where that top corner lies no
/// lower than the bottom corner of the same side.
pub proof fn lemma_corner_continuity(sampled: Outline)
    ensures
        sampled.left.len() > 0 && sampled.bottom.len() > 0 ==> stitch_spec(sampled).left.last()
            == stitch_spec(sampled).bottom[0],
        sampled.right.len() > 0 && sampled.top.len() > 0 ==> stitch_spec(sampled).right[0]
            == stitch_spec(sampled).top.last(),
        sampled.left.len() > 0 && sampled.top.len() > 0 && (sampled.bottom.len() > 0
            ==> sampled.top[0].y <= sampled.bottom[0].y) ==> stitch_spec(sampled).left[0]
            == stitch_spec(sampled).top[0],
        sampled.right.len() > 0 && sampled.bottom.len() > 0 && (sampled.top.len() > 0
            ==> sampled.top.last().y <= sampled.bottom.last().y) ==> stitch_spec(
            sampled,
        ).right.last() == stitch_spec(sampled).bottom.last(),
{
    let top = sampled.top;
    let bottom = sampled.bottom;
    if sampled.left.len() > 0 && top.len() > 0 {
        let l1 = joined_front(sampled.left, top[0]);
        assert(l1[0] == top[0]);
        if bottom.len() > 0 {
            lemma_drop_high_prefix(l1, bottom[0].y as int);
            if top[0].y <= bottom[0].y {
                let d = drop_high(l1, bottom[0].y as int);
                assert(d[0] == l1[0]);
                assert(d.push(bottom[0])[0] == d[0]);
            }
        }
    }
    if sampled.right.len() > 0 && bottom.len() > 0 {
        let r1 = joined_back(sampled.right, bottom.last());
        assert(r1.last() == bottom.last());
        if top.len() > 0 {
            lemma_skip_low_suffix(r1, top.last().y as int);
            if top.last().y <= bottom.last().y {
                let k = skip_low(r1, top.last().y as int);
                assert(k.last() == r1.last());
                assert((seq![top.last()] + k).last() == k.last());
            }
        }
    }
}

/// Removes the leading points whose y lies under `bound`.
pub fn trim_front(v: &mut Vec<Point>, bound: i64)
    ensures
        final(v)@ == skip_low(old(v)@, bound as int),
{
    while v.len() > 0 && v[0].y < bound
        invariant
            skip_low(v@, bound as int) == skip_low(old(v)@, bound as int),
        decreases v@.len(),
    {
        proof {
            assert(v@.remove(0) =~= v@.drop_first());
        }
        v.remove(0);
    }
}

/// Removes the trailing points whose y lies over `bound`.
pub fn trim_back(v: &mut Vec<Point>, bound: i64)
    ensures
        final(v)@ == drop_high(old(v)@, bound as int),
{
    while v.len() > 0 && v[v.len() - 1].y > bound
        invariant
            drop_high(v@, bound as int) == drop_high(old(v)@, bound as int),
        decreases v@.len(),
    {
        v.pop();
    }
}

/// Stitches four sampled sides into a closed outline: resolves the corners
/// top-left, bottom-left, bottom-right, top-right, in that order, and puts a
/// straight line in place of each side that is empty.
pub fn stitch(sampled: Sides) -> (out: Sides)
    ensures
        out@ == stitch_spec(sampled@),
{
    let Sides { top, right, bottom, left } = sampled;
    let mut left = left;
    let mut right = right;
    let mut top = top;
    let mut bottom = bottom;
    if top.len() > 0 && left.len() > 0 {
        let corner = top[0];
        trim_front(&mut left, corner.y);
        left.insert(0, corner);
        proof {
            assert(left@ =~= joined_front(sampled.left@, corner));
        }
    }
    if bottom.len() > 0 && left.len() > 0 {
        let corner = bottom[0];
        trim_back(&mut left, corner.y);
        left.push(corner);
    }
    if bottom.len() > 0 && right.len() > 0 {
        let corner = bottom[bottom.len() - 1];
        trim_back(&mut right, corner.y);
        right.push(corner);
    }
    if top.len() > 0 && right.len() > 0 {
        let corner = top[top.len() - 1];
        let ghost before = right@;
        trim_front(&mut right, corner.y);
        right.insert(0, corner);
        proof {
            assert(right@ =~= joined_front(before, corner));
        }
    }
    if top.len() == 0 {
        top.push(Point { x: 0, y: 0 });
        top.push(Point { x: FULL, y: 0 });
        proof {
            assert(top@ =~= seq![Point { x: 0, y: 0 }, Point { x: FULL, y: 0 }]);
        }
    }
    if right.len() == 0 {
        right.push(Point { x: FULL, y: 0 });
        right.push(Point { x: FULL, y: FULL });
        proof {
            assert(right@ =~= seq![Point { x: FULL, y: 0 }, Point { x: FULL, y: FULL }]);
        }
    }
    if bottom.len() == 0 {
        bottom.push(Point { x: 0, y: FULL });
        bottom.push(Point { x: FULL, y: FULL });
        proof {
            assert(bottom@ =~= seq![Point { x: 0, y: FULL }, Point { x: FULL, y: FULL }]);
        }
    }
    if left.len() == 0 {
        left.push(Point { x: 0, y: 0 });
        left.push(Point { x: 0, y: FULL });
        proof {
            assert(left@ =~= seq![Point { x: 0, y: 0 }, Point { x: 0, y: FULL }]);
        }
    }
    Sides { top, right, bottom, left }
}

} // verus!
