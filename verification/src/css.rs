//! The polygon serializer: point sequences as percentage text with four
//! decimal places.

use vstd::prelude::*;
use vstd::string::*;
use crate::fixed::SCALE;
use crate::path::PathResult;
use crate::sampler::Point;
use crate::stitch::Outline;

verus! {

/// The character of a decimal digit.
pub open spec fn digit_char(d: int) -> char {
    if d == 0 {
        '0'
    } else if d == 1 {
        '1'
    } else if d == 2 {
        '2'
    } else if d == 3 {
        '3'
    } else if d == 4 {
        '4'
    } else if d == 5 {
        '5'
    } else if d == 6 {
        '6'
    } else if d == 7 {
        '7'
    } else if d == 8 {
        '8'
    } else {
        '9'
    }
}

/// The decimal digits of a natural number, without leading zeros.
pub open spec fn digits(n: int) -> Seq<char>
    decreases n,
{
    if n < 10 {
        seq![digit_char(n)]
    } else {
        digits(n / 10).push(digit_char(n % 10))
    }
}

/// The four decimal places of a fraction given in ten-thousandths.
pub open spec fn fraction(f: int) -> Seq<char> {
    seq![
        digit_char(f / 1000),
        digit_char((f / 100) % 10),
        digit_char((f / 10) % 10),
        digit_char(f % 10),
    ]
}

/// The text of a fixed-point number: a minus sign where it is negative, the
/// integer part, a point, and four decimal places.
pub open spec fn decimal_text(v: int) -> Seq<char> {
    let m = if v < 0 { -v } else { v };
    let sign = if v < 0 { "-"@ } else { Seq::<char>::empty() };
    sign + digits(m / (SCALE as int)) + "."@ + fraction(m % (SCALE as int))
}

/// The decimal places of a fraction given in ten-thousandths, without
/// trailing noughts: at least one place, at most four.
pub open spec fn short_fraction(f: int) -> Seq<char> {
    if f % 10 != 0 {
        seq![
            digit_char(f / 1000),
            digit_char((f / 100) % 10),
            digit_char((f / 10) % 10),
            digit_char(f % 10),
        ]
    } else if f % 100 != 0 {
        seq![digit_char(f / 1000), digit_char((f / 100) % 10), digit_char((f / 10) % 10)]
    } else if f % 1000 != 0 {
        seq![digit_char(f / 1000), digit_char((f / 100) % 10)]
    } else {
        seq![digit_char(f / 1000)]
    }
}

/// The shortest text of a fixed-point number: a minus sign where it is
/// negative, the integer part, and, where the number is not whole, a point and
/// the decimal places without trailing noughts.
pub open spec fn short_text(v: int) -> Seq<char> {
    let m = if v < 0 { -v } else { v };
    let sign = if v < 0 { "-"@ } else { Seq::<char>::empty() };
    let places = if m % (SCALE as int) == 0 {
        Seq::<char>::empty()
    } else {
        "."@ + short_fraction(m % (SCALE as int))
    };
    sign + digits(m / (SCALE as int)) + places
}

/// The text of a point: both coordinates as percentages, a space between.
pub open spec fn point_css(p: Point) -> Seq<char> {
    decimal_text(p.x as int) + "% "@ + decimal_text(p.y as int) + "%"@
}

/// The text of a point sequence: the points joined by a comma and a space.
pub open spec fn points_css(pts: Seq<Point>) -> Seq<char>
    decreases pts.len(),
{
    if pts.len() == 0 {
        Seq::empty()
    } else if pts.len() == 1 {
        point_css(pts[0])
    } else {
        points_css(pts.drop_last()) + ", "@ + point_css(pts.last())
    }
}

/// The band polygon of one side: the inner sequence backwards, then the outer
/// sequence forwards.
pub open spec fn band_css(inner: Seq<Point>, outer: Seq<Point>) -> Seq<char> {
    points_css(inner.reverse()) + ", "@ + points_css(outer)
}

/// The clip polygon of the content: inner top and inner right forwards, inner
/// bottom and inner left backwards.
pub open spec fn clip_css(inner: Outline) -> Seq<char> {
    "polygon("@ + points_css(inner.top) + ", "@ + points_css(inner.right) + ", "@ + points_css(
        inner.bottom.reverse(),
    ) + ", "@ + points_css(inner.left.reverse()) + ")"@
}

/// The text of one decimal digit.
fn digit_str(d: u64) -> (s: &'static str)
    requires
        d < 10,
    ensures
        s@ == seq![digit_char(d as int)],
{
    proof {
        reveal_strlit("0");
        reveal_strlit("1");
        reveal_strlit("2");
        reveal_strlit("3");
        reveal_strlit("4");
        reveal_strlit("5");
        reveal_strlit("6");
        reveal_strlit("7");
        reveal_strlit("8");
        reveal_strlit("9");
    }
    let s = if d == 0 {
        "0"
    } else if d == 1 {
        "1"
    } else if d == 2 {
        "2"
    } else if d == 3 {
        "3"
    } else if d == 4 {
        "4"
    } else if d == 5 {
        "5"
    } else if d == 6 {
        "6"
    } else if d == 7 {
        "7"
    } else if d == 8 {
        "8"
    } else {
        "9"
    };
    proof {
        assert(s@ =~= seq![digit_char(d as int)]);
    }
    s
}

/// Appends the decimal digits of `n`.
fn push_digits(out: &mut String, n: u64)
    ensures
        final(out)@ == old(out)@ + digits(n as int),
    decreases n,
{
    if n >= 10 {
        push_digits(out, n / 10);
    }
    out.append(digit_str(n % 10));
    proof {
        assert(final(out)@ =~= old(out)@ + digits(n as int));
    }
}

/// The text of a fixed-point number with four decimal places.
pub fn decimal_string(v: i64) -> (s: String)
    ensures
        s@ == decimal_text(v as int),
{
    let mut s = String::new();
    if v < 0 {
        s.append("-");
    }
    let wide: i128 = v as i128;
    let m: u64 = (if wide < 0 { -wide } else { wide }) as u64;
    push_digits(&mut s, m / 10_000);
    s.append(".");
    let f: u64 = m % 10_000;
    s.append(digit_str(f / 1000));
    s.append(digit_str((f / 100) % 10));
    s.append(digit_str((f / 10) % 10));
    s.append(digit_str(f % 10));
    proof {
        assert(s@ =~= decimal_text(v as int));
    }
    s
}

/// The shortest text of a fixed-point number: whole numbers without a point,
/// others without trailing noughts.
pub fn short_string(v: i64) -> (s: String)
    ensures
        s@ == short_text(v as int),
{
    let mut s = String::new();
    if v < 0 {
        s.append("-");
    }
    let wide: i128 = v as i128;
    let m: u64 = (if wide < 0 { -wide } else { wide }) as u64;
    push_digits(&mut s, m / 10_000);
    let f: u64 = m % 10_000;
    if f != 0 {
        s.append(".");
        s.append(digit_str(f / 1000));
        if f % 1000 != 0 {
            s.append(digit_str((f / 100) % 10));
            if f % 100 != 0 {
                s.append(digit_str((f / 10) % 10));
                if f % 10 != 0 {
                    s.append(digit_str(f % 10));
                }
            }
        }
    }
    proof {
        assert(s@ =~= short_text(v as int));
    }
    s
}

/// The text of one point.
pub fn point_to_css(p: Point) -> (s: String)
    ensures
        s@ == point_css(p),
{
    let mut s = decimal_string(p.x);
    s.append("% ");
    let y = decimal_string(p.y);
    s.append(y.as_str());
    s.append("%");
    s
}

/// Serializes a point sequence: `x% y%` with four decimal places for each
/// point, joined by a comma and a space.
pub fn points_to_css(points: &[Point]) -> (s: String)
    ensures
        s@ == points_css(points@),
{
    let mut s = String::new();
    let mut i: usize = 0;
    while i < points.len()
        invariant
            i <= points@.len(),
            s@ == points_css(points@.take(i as int)),
        decreases points@.len() - i,
    {
        proof {
            assert(points@.take(i + 1).drop_last() =~= points@.take(i as int));
            assert(points@.take(i + 1).last() == points@[i as int]);
        }
        if i > 0 {
            s.append(", ");
        }
        let p = point_to_css(points[i]);
        s.append(p.as_str());
        proof {
            if i == 0 {
                assert(s@ =~= point_css(points@[0]));
            }
        }
        i += 1;
    }
    proof {
        assert(points@.take(i as int) =~= points@);
    }
    s
}

/// The sequence backwards.
pub fn reversed(points: &[Point]) -> (r: Vec<Point>)
    ensures
        r@ == points@.reverse(),
{
    let mut r: Vec<Point> = Vec::new();
    let n = points.len();
    let mut i: usize = 0;
    while i < n
        invariant
            n == points@.len(),
            i <= n,
            r@.len() == i,
            forall|k: int| 0 <= k < i ==> r@[k] == points@[n - 1 - k],
        decreases n - i,
    {
        r.push(points[n - 1 - i]);
        i += 1;
    }
    proof {
        assert(r@ =~= points@.reverse());
    }
    r
}

/// Serializes the band polygon of one side: the inner sequence backwards,
/// then the outer sequence forwards.
pub fn make_path_css(inner: &[Point], outer: &[Point]) -> (s: String)
    ensures
        s@ == band_css(inner@, outer@),
{
    let back = reversed(inner);
    let mut s = points_to_css(back.as_slice());
    s.append(", ");
    let fore = points_to_css(outer);
    s.append(fore.as_str());
    s
}

/// Serializes the clip polygon of the content from the four inner sequences.
pub fn content_clip_path(pr: &PathResult) -> (s: String)
    ensures
        s@ == clip_css(pr.inner()),
{
    let mut s = String::from_str("polygon(");
    let top = points_to_css(pr.inner_top.as_slice());
    s.append(top.as_str());
    s.append(", ");
    let right = points_to_css(pr.inner_right.as_slice());
    s.append(right.as_str());
    s.append(", ");
    let bottom_rev = reversed(pr.inner_bottom.as_slice());
    let bottom = points_to_css(bottom_rev.as_slice());
    s.append(bottom.as_str());
    s.append(", ");
    let left_rev = reversed(pr.inner_left.as_slice());
    let left = points_to_css(left_rev.as_slice());
    s.append(left.as_str());
    s.append(")");
    s
}

} // verus!
