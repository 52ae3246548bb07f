//! Reading percentage polygon text back into points.

use vstd::prelude::*;
use vstd::string::*;
use crate::css::{
    band_css, clip_css, decimal_text, digit_char, digits, fraction, point_css, points_css,
};
use crate::fixed::SCALE;
use crate::sampler::Point;
use crate::stitch::Outline;

verus! {

/// The largest integer part that a coordinate can have.
pub const WHOLE_LIMIT: u64 = 922_337_203_685_477;

/// Whether the character is a decimal digit.
pub open spec fn is_digit(c: char) -> bool {
    48 <= c as u32 <= 57
}

/// The value of a decimal digit.
pub open spec fn digit_value(c: char) -> int {
    c as u32 as int - 48
}

/// The number of digits that follow each other from position `i` on.
pub open spec fn digit_run(s: Seq<char>, i: int) -> int
    decreases s.len() - i,
{
    if 0 <= i < s.len() && is_digit(s[i]) {
        1 + digit_run(s, i + 1)
    } else {
        0
    }
}

/// The number that a sequence of digits spells.
pub open spec fn seq_value(d: Seq<char>) -> int
    decreases d.len(),
{
    if d.len() == 0 {
        0
    } else {
        seq_value(d.drop_last()) * 10 + digit_value(d.last())
    }
}

/// The number that the `k` digits from position `i` on spell.
pub open spec fn digits_value(s: Seq<char>, i: int, k: int) -> int {
    seq_value(s.subrange(i, i + k))
}

/// Reads one fixed-point number at position `i`: an optional minus sign, an
/// integer part without leading zeros, a point, and exactly four decimal
/// places. Gives the number and the position behind it, or `None` where the
/// text does not have this form, spells minus zero, or leaves the range of a
/// coordinate.
pub open spec fn parse_number(s: Seq<char>, i: int) -> Option<(int, int)> {
    let negative = 0 <= i < s.len() && s[i] == '-';
    let start = if negative { i + 1 } else { i };
    let k = digit_run(s, start);
    let whole = digits_value(s, start, k);
    let dot = start + k;
    if k < 1 || (k > 1 && s[start] == '0') || whole > WHOLE_LIMIT {
        None
    } else if dot + 5 > s.len() || s[dot] != '.' || !is_digit(s[dot + 1]) || !is_digit(s[dot + 2])
        || !is_digit(s[dot + 3]) || !is_digit(s[dot + 4]) {
        None
    } else {
        let magnitude = whole * SCALE + digits_value(s, dot + 1, 4);
        let v = if negative { -magnitude } else { magnitude };
        if (negative && magnitude == 0) || v < i64::MIN || v > i64::MAX {
            None
        } else {
            Some((v, dot + 5))
        }
    }
}

/// Reads one point at position `i`: a number, a percent sign and a space, a
/// number, and a percent sign.
pub open spec fn parse_point(s: Seq<char>, i: int) -> Option<(Point, int)> {
    match parse_number(s, i) {
        None => None,
        Some((x, a)) => {
            if a + 2 > s.len() || s[a] != '%' || s[a + 1] != ' ' {
                None
            } else {
                match parse_number(s, a + 2) {
                    None => None,
                    Some((y, b)) => {
                        if b >= s.len() || s[b] != '%' {
                            None
                        } else {
                            Some((Point { x: x as i64, y: y as i64 }, b + 1))
                        }
                    },
                }
            }
        },
    }
}

/// Reads the points from position `i` to the end of the text, one or more,
/// with a comma and a space between two.
pub open spec fn parse_list(s: Seq<char>, i: int) -> Option<Seq<Point>>
    decreases s.len() - i,
{
    match parse_point(s, i) {
        None => None,
        Some((p, j)) => {
            if j <= i || j > s.len() {
                None
            } else if j == s.len() {
                Some(seq![p])
            } else if j + 2 > s.len() || s[j] != ',' || s[j + 1] != ' ' {
                None
            } else {
                match parse_list(s, j + 2) {
                    None => None,
                    Some(rest) => Some(seq![p] + rest),
                }
            }
        },
    }
}

/// The points that a text spells: none for the empty text, else the list of
/// points that fills the whole text; `None` where the text is no such list.
pub open spec fn parse_spec(s: Seq<char>) -> Option<Seq<Point>> {
    if s.len() == 0 {
        Some(Seq::empty())
    } else {
        parse_list(s, 0)
    }
}

/// The points that a polygon text spells: the word `polygon`, and in round
/// brackets a point list; `None` for any other text.
pub open spec fn parse_polygon_spec(s: Seq<char>) -> Option<Seq<Point>> {
    if s.len() >= 9 && s.subrange(0, 8) == "polygon("@ && s[s.len() - 1] == ')' {
        parse_spec(s.subrange(8, s.len() - 1))
    } else {
        None
    }
}

/// `a` in front of what an optional rest holds.
pub open spec fn prepend(a: Seq<Point>, rest: Option<Seq<Point>>) -> Option<Seq<Point>> {
    match rest {
        None => None,
        Some(r) => Some(a + r),
    }
}

/// The points of an optional vector.
pub open spec fn points_of(r: Option<Vec<Point>>) -> Option<Seq<Point>> {
    match r {
        None => None,
        Some(v) => Some(v@),
    }
}

/// All characters of a run are digits, and the run ends inside the text.
pub proof fn lemma_run_is_digits(s: Seq<char>, i: int)
    requires
        0 <= i,
    ensures
        0 <= digit_run(s, i),
        i + digit_run(s, i) <= s.len() || digit_run(s, i) == 0,
        forall|t: int| i <= t < i + digit_run(s, i) ==> is_digit(#[trigger] s[t]),
    decreases s.len() - i,
{
    if i < s.len() && is_digit(s[i]) {
        lemma_run_is_digits(s, i + 1);
    }
}

/// The run of digits from `i` on reaches at least to `j` where all characters
/// between are digits, and exactly to `j` where the text ends there or goes on
/// with another character.
pub proof fn lemma_digit_run(s: Seq<char>, i: int, j: int)
    requires
        0 <= i <= j <= s.len(),
        forall|t: int| i <= t < j ==> is_digit(#[trigger] s[t]),
    ensures
        digit_run(s, i) >= j - i,
        j == s.len() || !is_digit(s[j]) ==> digit_run(s, i) == j - i,
    decreases j - i,
{
    lemma_run_is_digits(s, i);
    if i < j {
        assert(is_digit(s[i]));
        lemma_digit_run(s, i + 1, j);
    }
}

/// A sequence of digits spells no smaller number than any of its prefixes.
pub proof fn lemma_prefix_value(d: Seq<char>, k: int)
    requires
        0 <= k <= d.len(),
        forall|t: int| 0 <= t < d.len() ==> is_digit(#[trigger] d[t]),
    ensures
        0 <= seq_value(d.take(k)) <= seq_value(d),
    decreases d.len(),
{
    if d.len() == 0 {
        assert(d.take(k) =~= d);
    } else {
        let head = d.drop_last();
        assert(is_digit(d.last()));
        if k == d.len() {
            assert(d.take(k) =~= d);
            lemma_prefix_value(head, k - 1);
        } else {
            lemma_prefix_value(head, k);
            assert(head.take(k) =~= d.take(k));
        }
    }
}

/// Four digits spell thousands, hundreds, tens and ones.
pub proof fn lemma_value_of_four(d: Seq<char>)
    requires
        d.len() == 4,
    ensures
        seq_value(d) == digit_value(d[0]) * 1000 + digit_value(d[1]) * 100 + digit_value(d[2]) * 10
            + digit_value(d[3]),
{
    let d3 = d.drop_last();
    let d2 = d3.drop_last();
    let d1 = d2.drop_last();
    let d0 = d1.drop_last();
    assert(d0.len() == 0);
    assert(seq_value(d1) == seq_value(d0) * 10 + digit_value(d1.last()));
    assert(seq_value(d2) == seq_value(d1) * 10 + digit_value(d2.last()));
    assert(seq_value(d3) == seq_value(d2) * 10 + digit_value(d3.last()));
    assert(seq_value(d) == seq_value(d3) * 10 + digit_value(d.last()));
}

/// Whether the character is a decimal digit.
fn digit_code(c: char) -> (b: bool)
    ensures
        b == is_digit(c),
{
    let code: u32 = c as u32;
    48 <= code && code <= 57
}

/// Reads one number at position `i`.
fn scan_number(text: &str, len: usize, i: usize) -> (r: Option<(i64, usize)>)
    requires
        len == text@.len(),
        i <= len,
    ensures
        match r {
            Some((v, n)) => parse_number(text@, i as int) == Some((v as int, n as int)) && i < n
                <= len,
            None => parse_number(text@, i as int) is None,
        },
{
    let negative = i < len && text.get_char(i) == '-';
    let start: usize = if negative { i + 1 } else { i };
    let mut idx: usize = start;
    let mut whole: u64 = 0;
    while idx < len && digit_code(text.get_char(idx))
        invariant
            len == text@.len(),
            start <= idx <= len,
            negative == (i < len && text@[i as int] == '-'),
            start == if negative { i + 1 } else { i as int },
            forall|t: int| start <= t < idx ==> is_digit(#[trigger] text@[t]),
            whole == digits_value(text@, start as int, idx - start),
            whole <= WHOLE_LIMIT,
        decreases len - idx,
    {
        let c = text.get_char(idx);
        let code: u32 = c as u32;
        let next: u64 = whole * 10 + ((code - 48) as u64);
        proof {
            assert(text@.subrange(start as int, idx + 1).drop_last() =~= text@.subrange(
                start as int,
                idx as int,
            ));
            assert(next == digits_value(text@, start as int, idx + 1 - start));
        }
        if next > WHOLE_LIMIT {
            proof {
                lemma_digit_run(text@, start as int, idx + 1);
                lemma_run_is_digits(text@, start as int);
                let k = digit_run(text@, start as int);
                let full = text@.subrange(start as int, start + k);
                assert(full.take(idx + 1 - start) =~= text@.subrange(start as int, idx + 1));
                assert forall|t: int| 0 <= t < full.len() implies is_digit(#[trigger] full[t]) by {
                    assert(is_digit(text@[start + t]));
                }
                lemma_prefix_value(full, idx + 1 - start);
            }
            return None;
        }
        whole = next;
        idx += 1;
    }
    proof {
        lemma_digit_run(text@, start as int, idx as int);
    }
    let k: usize = idx - start;
    if k < 1 || (k > 1 && text.get_char(start) == '0') {
        return None;
    }
    if len - idx < 5 {
        return None;
    }
    if text.get_char(idx) != '.' {
        return None;
    }
    let c1: u32 = text.get_char(idx + 1) as u32;
    let c2: u32 = text.get_char(idx + 2) as u32;
    let c3: u32 = text.get_char(idx + 3) as u32;
    let c4: u32 = text.get_char(idx + 4) as u32;
    if c1 < 48 || c1 > 57 || c2 < 48 || c2 > 57 || c3 < 48 || c3 > 57 || c4 < 48 || c4 > 57 {
        return None;
    }
    let places: u64 = ((c1 - 48) as u64) * 1000 + ((c2 - 48) as u64) * 100 + ((c3 - 48) as u64) * 10 + (
    (c4 - 48) as u64);
    proof {
        lemma_value_of_four(text@.subrange(idx + 1, idx + 5));
        assert(places == digits_value(text@, idx + 1, 4));
    }
    let magnitude: i128 = (whole as i128) * 10_000 + (places as i128);
    let v: i128 = if negative { -magnitude } else { magnitude };
    if (negative && magnitude == 0) || v < (i64::MIN as i128) || v > (i64::MAX as i128) {
        return None;
    }
    Some((v as i64, idx + 5))
}

/// Reads one point at position `i`.
fn scan_point(text: &str, len: usize, i: usize) -> (r: Option<(Point, usize)>)
    requires
        len == text@.len(),
        i <= len,
    ensures
        match r {
            Some((p, n)) => parse_point(text@, i as int) == Some((p, n as int)) && i < n <= len,
            None => parse_point(text@, i as int) is None,
        },
{
    match scan_number(text, len, i) {
        None => None,
        Some((x, a)) => {
            if len - a < 2 || text.get_char(a) != '%' || text.get_char(a + 1) != ' ' {
                None
            } else {
                match scan_number(text, len, a + 2) {
                    None => None,
                    Some((y, b)) => {
                        if b >= len || text.get_char(b) != '%' {
                            None
                        } else {
                            Some((Point { x, y }, b + 1))
                        }
                    },
                }
            }
        },
    }
}

/// Reads a point sequence from its text: the empty text gives no points; a
/// list of points `x% y%` with four decimal places each, joined by a comma
/// and a space, gives these points; any other text gives `None`.
pub fn parse_points(text: &str) -> (r: Option<Vec<Point>>)
    ensures
        points_of(r) == parse_spec(text@),
{
    let len = text.unicode_len();
    let mut pts: Vec<Point> = Vec::new();
    if len == 0 {
        return Some(pts);
    }
    let mut i: usize = 0;
    loop
        invariant
            len == text@.len(),
            len > 0,
            i <= len,
            prepend(pts@, parse_list(text@, i as int)) == parse_list(text@, 0),
        decreases len - i,
    {
        match scan_point(text, len, i) {
            None => {
                return None;
            },
            Some((p, j)) => {
                let ghost before = pts@;
                pts.push(p);
                if j == len {
                    proof {
                        assert(before + seq![p] =~= pts@);
                    }
                    return Some(pts);
                }
                if len - j < 2 || text.get_char(j) != ',' || text.get_char(j + 1) != ' ' {
                    return None;
                }
                proof {
                    let rest = parse_list(text@, j + 2);
                    if rest is Some {
                        assert(before + (seq![p] + rest->0) =~= pts@ + rest->0);
                    }
                }
                i = j + 2;
            },
        }
    }
}

/// Reads the points of a polygon text: the word `polygon` and, in round
/// brackets, a point list. Any other text gives `None`.
pub fn parse_polygon(text: &str) -> (r: Option<Vec<Point>>)
    ensures
        points_of(r) == parse_polygon_spec(text@),
{
    let len = text.unicode_len();
    if len < 9 {
        return None;
    }
    let head = String::from_str(text.substring_char(0, 8));
    let word = String::from_str("polygon(");
    if !(head == word) || text.get_char(len - 1) != ')' {
        return None;
    }
    parse_points(text.substring_char(8, len - 1))
}

/// The character of a digit is a digit with that value, and only the digit
/// nought has the character `0`.
pub proof fn lemma_digit_char(d: int)
    requires
        0 <= d <= 9,
    ensures
        is_digit(digit_char(d)),
        digit_value(digit_char(d)) == d,
        (digit_char(d) == '0') == (d == 0),
{
}

/// The digits of a natural number are digits, spell the number, and start
/// with a nought only for the number nought.
pub proof fn lemma_digits(n: int)
    requires
        0 <= n,
    ensures
        digits(n).len() >= 1,
        forall|t: int| 0 <= t < digits(n).len() ==> is_digit(#[trigger] digits(n)[t]),
        seq_value(digits(n)) == n,
        n >= 1 ==> digits(n)[0] != '0',
        digits(n).len() > 1 ==> n >= 10,
    decreases n,
{
    let d = digits(n);
    if n < 10 {
        lemma_digit_char(n);
        assert(d =~= seq![digit_char(n)]);
        assert(d.drop_last() =~= Seq::<char>::empty());
        assert(seq_value(d) == seq_value(d.drop_last()) * 10 + digit_value(d.last()));
    } else {
        lemma_digits(n / 10);
        lemma_digit_char(n % 10);
        let head = digits(n / 10);
        assert(d =~= head.push(digit_char(n % 10)));
        assert(d.drop_last() =~= head);
        assert(seq_value(d) == seq_value(d.drop_last()) * 10 + digit_value(d.last()));
        assert(d[0] == head[0]);
        assert forall|t: int| 0 <= t < d.len() implies is_digit(#[trigger] d[t]) by {
            if t < head.len() {
                assert(d[t] == head[t]);
            }
        }
    }
}

/// The four decimal places of a fraction are digits and spell the fraction.
pub proof fn lemma_fraction(f: int)
    requires
        0 <= f < 10_000,
    ensures
        fraction(f).len() == 4,
        forall|t: int| 0 <= t < 4 ==> is_digit(#[trigger] fraction(f)[t]),
        seq_value(fraction(f)) == f,
{
    lemma_digit_char(f / 1000);
    lemma_digit_char((f / 100) % 10);
    lemma_digit_char((f / 10) % 10);
    lemma_digit_char(f % 10);
    lemma_value_of_four(fraction(f));
}

/// The magnitude of a coordinate, its integer part and its fraction.
pub open spec fn magnitude(v: int) -> int {
    if v < 0 {
        -v
    } else {
        v
    }
}

/// The parts of the decimal text of a number: a minus sign where it is
/// negative, the digits of the integer part, a point, the four decimal places.
pub proof fn lemma_decimal_text_parts(v: int)
    ensures
        ({
            let text = decimal_text(v);
            let sign: int = if v < 0 { 1 } else { 0 };
            let d = digits(magnitude(v) / (SCALE as int));
            let fr = fraction(magnitude(v) % (SCALE as int));
            &&& text.len() == sign + d.len() + 5
            &&& v < 0 ==> text[0] == '-'
            &&& text.subrange(sign, sign + d.len()) == d
            &&& text[sign + d.len()] == '.'
            &&& text.subrange(sign + d.len() + 1, sign + d.len() + 5) == fr
        }),
{
    reveal_strlit("-");
    reveal_strlit(".");
    let text = decimal_text(v);
    let sign: int = if v < 0 { 1 } else { 0 };
    let d = digits(magnitude(v) / (SCALE as int));
    let fr = fraction(magnitude(v) % (SCALE as int));
    assert(text.subrange(sign, sign + d.len()) =~= d);
    assert(text.subrange(sign + d.len() + 1, sign + d.len() + 5) =~= fr);
}

/// Reading a number of the right shape: an optional minus sign at `i`, then
/// `k` digits without a leading nought, a point and four digits give the
/// number that they spell, where it is not minus zero and fits a coordinate.
pub proof fn lemma_number_shape(s: Seq<char>, i: int, negative: bool, k: int)
    requires
        0 <= i < s.len(),
        negative == (s[i] == '-'),
        k >= 1,
        i + (if negative { 1int } else { 0int }) + k + 5 <= s.len(),
        forall|t: int|
            i + (if negative { 1int } else { 0int }) <= t < i + (if negative { 1int } else { 0int })
                + k ==> is_digit(#[trigger] s[t]),
        s[i + (if negative { 1int } else { 0int }) + k] == '.',
        is_digit(s[i + (if negative { 1int } else { 0int }) + k + 1]),
        is_digit(s[i + (if negative { 1int } else { 0int }) + k + 2]),
        is_digit(s[i + (if negative { 1int } else { 0int }) + k + 3]),
        is_digit(s[i + (if negative { 1int } else { 0int }) + k + 4]),
        k > 1 ==> s[i + (if negative { 1int } else { 0int })] != '0',
    ensures
        ({
            let start = i + (if negative { 1int } else { 0int });
            let whole = seq_value(s.subrange(start, start + k));
            let m = whole * SCALE + seq_value(s.subrange(start + k + 1, start + k + 5));
            let v = if negative { -m } else { m };
            whole <= WHOLE_LIMIT && !(negative && m == 0) && i64::MIN <= v <= i64::MAX
                ==> parse_number(s, i) == Some((v, start + k + 5))
        }),
{
    let start = i + (if negative { 1int } else { 0int });
    lemma_digit_run(s, start, start + k);
}

/// Where a text holds, from position `i` on, an optional minus sign, the
/// digits `d`, a point and the four digits `fr`, the digits and the decimal
/// places stand at their positions in the text.
pub proof fn lemma_parts_in_place(
    s: Seq<char>,
    i: int,
    text: Seq<char>,
    negative: bool,
    d: Seq<char>,
    fr: Seq<char>,
)
    requires
        0 <= i,
        i + text.len() <= s.len(),
        s.subrange(i, i + text.len()) == text,
        d.len() >= 1,
        fr.len() == 4,
        text.len() == (if negative { 1int } else { 0int }) + d.len() + 5,
        negative ==> text[0] == '-',
        text.subrange(
            if negative { 1int } else { 0int },
            (if negative { 1int } else { 0int }) + d.len(),
        ) == d,
        text[(if negative { 1int } else { 0int }) + d.len()] == '.',
        text.subrange(
            (if negative { 1int } else { 0int }) + d.len() + 1,
            (if negative { 1int } else { 0int }) + d.len() + 5,
        ) == fr,
    ensures
        ({
            let start = i + (if negative { 1int } else { 0int });
            let dot = start + d.len();
            &&& s.subrange(start, dot) == d
            &&& s.subrange(dot + 1, dot + 5) == fr
            &&& s[i] == (if negative { '-' } else { d[0] })
            &&& s[start] == d[0]
            &&& s[dot] == '.'
            &&& s[dot + 1] == fr[0]
            &&& s[dot + 2] == fr[1]
            &&& s[dot + 3] == fr[2]
            &&& s[dot + 4] == fr[3]
            &&& forall|t: int| start <= t < dot ==> #[trigger] s[t] == d[t - start]
        }),
{
    let sign = if negative { 1int } else { 0int };
    let k = d.len() as int;
    let start = i + sign;
    let dot = start + k;
    let w = s.subrange(i, i + text.len());
    assert(s.subrange(start, dot) =~= w.subrange(sign, sign + k));
    assert(s.subrange(dot + 1, dot + 5) =~= w.subrange(sign + k + 1, sign + k + 5));
    assert(s[i] == w[0]);
    assert(s[dot] == w[sign + k]);
    assert(w.subrange(sign, sign + k)[0] == w[sign]);
    assert(s[start] == s.subrange(start, dot)[0]);
    assert(s[dot + 1] == s.subrange(dot + 1, dot + 5)[0]);
    assert(s[dot + 2] == s.subrange(dot + 1, dot + 5)[1]);
    assert(s[dot + 3] == s.subrange(dot + 1, dot + 5)[2]);
    assert(s[dot + 4] == s.subrange(dot + 1, dot + 5)[3]);
    assert forall|t: int| start <= t < dot implies #[trigger] s[t] == d[t - start] by {
        assert(s[t] == s.subrange(start, dot)[t - start]);
    }
}

/// A number that was written is read back: where the text holds the decimal
/// text of a coordinate at position `i`, reading a number there gives the
/// coordinate and the position behind its text.
#[verifier::spinoff_prover]
pub proof fn lemma_number_reads_back(s: Seq<char>, i: int, v: int)
    requires
        i64::MIN <= v <= i64::MAX,
        0 <= i,
        i + decimal_text(v).len() <= s.len(),
        s.subrange(i, i + decimal_text(v).len()) == decimal_text(v),
    ensures
        parse_number(s, i) == Some((v, i + decimal_text(v).len())),
{
    let text = decimal_text(v);
    let m = magnitude(v);
    let whole = m / (SCALE as int);
    let f = m % (SCALE as int);
    let d = digits(whole);
    let fr = fraction(f);
    let negative = v < 0;
    let sign: int = if negative { 1 } else { 0 };
    let k = d.len() as int;
    let start = i + sign;
    let dot = start + k;
    lemma_decimal_text_parts(v);
    lemma_digits(whole);
    lemma_fraction(f);
    lemma_parts_in_place(s, i, text, negative, d, fr);
    assert(whole * SCALE + f == m);
    assert(whole <= WHOLE_LIMIT);
    assert(is_digit(d[0]));
    assert(negative == (s[i] == '-'));
    assert(is_digit(fr[0]) && is_digit(fr[1]) && is_digit(fr[2]) && is_digit(fr[3]));
    assert forall|t: int| start <= t < start + k implies is_digit(#[trigger] s[t]) by {
        assert(is_digit(d[t - start]));
    }
    lemma_number_shape(s, i, negative, k);
}

/// The text of a point is not empty.
pub proof fn lemma_point_css_nonempty(p: Point)
    ensures
        point_css(p).len() >= 1,
{
    reveal_strlit("%");
}

/// A point that was written is read back.
pub proof fn lemma_point_reads_back(s: Seq<char>, i: int, p: Point)
    requires
        0 <= i,
        i + point_css(p).len() <= s.len(),
        s.subrange(i, i + point_css(p).len()) == point_css(p),
    ensures
        point_css(p).len() >= 1,
        parse_point(s, i) == Some((p, i + point_css(p).len())),
{
    reveal_strlit("% ");
    reveal_strlit("%");
    let text = point_css(p);
    let tx = decimal_text(p.x as int);
    let ty = decimal_text(p.y as int);
    assert(text =~= tx + "% "@ + ty + "%"@);
    assert(text.len() == tx.len() + 2 + ty.len() + 1);
    assert forall|t: int| 0 <= t < text.len() implies s[i + t] == text[t] by {
        assert(s.subrange(i, i + text.len())[t] == s[i + t]);
    }
    assert(s.subrange(i, i + tx.len()) =~= tx) by {
        assert forall|t: int| 0 <= t < tx.len() implies s.subrange(i, i + tx.len())[t] == tx[t] by {
            assert(s[i + t] == text[t]);
        }
    }
    lemma_number_reads_back(s, i, p.x as int);
    let a = i + tx.len();
    assert(s[a] == '%' && s[a + 1] == ' ') by {
        assert(s[i + tx.len()] == text[tx.len() as int]);
        assert(s[i + (tx.len() + 1)] == text[tx.len() as int + 1]);
    }
    assert(s.subrange(a + 2, a + 2 + ty.len()) =~= ty) by {
        assert forall|t: int| 0 <= t < ty.len() implies s.subrange(a + 2, a + 2 + ty.len())[t]
            == ty[t] by {
            assert(s[i + (tx.len() + 2 + t)] == text[tx.len() + 2 + t]);
        }
    }
    lemma_number_reads_back(s, a + 2, p.y as int);
    let b = a + 2 + ty.len();
    assert(s[b] == '%') by {
        assert(s[i + (tx.len() + 2 + ty.len())] == text[tx.len() as int + 2 + ty.len()]);
    }
}

/// The text of two or more points is the text of the first, a comma and a
/// space, and the text of the others.
pub proof fn lemma_points_css_first(pts: Seq<Point>)
    requires
        pts.len() >= 2,
    ensures
        points_css(pts) == point_css(pts[0]) + ", "@ + points_css(pts.drop_first()),
    decreases pts.len(),
{
    let head = pts.drop_last();
    let tail = pts.drop_first();
    if pts.len() == 2 {
        assert(head.len() == 1 && tail.len() == 1);
        assert(points_css(head) == point_css(pts[0]));
        assert(points_css(tail) == point_css(pts[1]));
    } else {
        lemma_points_css_first(head);
        assert(head.drop_first() =~= tail.drop_last());
        assert(head[0] == pts[0]);
        assert(tail.last() == pts.last());
        assert(points_css(pts) =~= point_css(pts[0]) + ", "@ + points_css(tail));
    }
}

/// The text of two sequences one after the other is the two texts with a
/// comma and a space between.
pub proof fn lemma_points_css_concat(a: Seq<Point>, b: Seq<Point>)
    requires
        a.len() >= 1,
        b.len() >= 1,
    ensures
        points_css(a + b) == points_css(a) + ", "@ + points_css(b),
    decreases b.len(),
{
    let all = a + b;
    assert(all.last() == b.last());
    if b.len() == 1 {
        assert(all.drop_last() =~= a);
    } else {
        lemma_points_css_concat(a, b.drop_last());
        assert(all.drop_last() =~= a + b.drop_last());
        assert(points_css(all) =~= points_css(a) + ", "@ + points_css(b));
    }
}

/// A list of points that was written is read back.
pub proof fn lemma_list_reads_back(s: Seq<char>, i: int, pts: Seq<Point>)
    requires
        pts.len() >= 1,
        0 <= i,
        i + points_css(pts).len() == s.len(),
        s.subrange(i, s.len() as int) == points_css(pts),
    ensures
        parse_list(s, i) == Some(pts),
    decreases pts.len(),
{
    reveal_strlit(", ");
    let text = points_css(pts);
    let first = point_css(pts[0]);
    assert forall|t: int| 0 <= t < text.len() implies s[i + t] == text[t] by {
        assert(s.subrange(i, s.len() as int)[t] == s[i + t]);
    }
    if pts.len() == 1 {
        assert(text == first);
        lemma_point_reads_back(s, i, pts[0]);
        assert(seq![pts[0]] =~= pts);
    } else {
        let rest = pts.drop_first();
        lemma_points_css_first(pts);
        let rest_text = points_css(rest);
        assert(text.len() == first.len() + 2 + rest_text.len());
        assert(s.subrange(i, i + first.len()) =~= first) by {
            assert forall|t: int| 0 <= t < first.len() implies s.subrange(i, i + first.len())[t]
                == first[t] by {
                assert(s[i + t] == text[t]);
            }
        }
        lemma_point_reads_back(s, i, pts[0]);
        let j = i + first.len();
        assert(s[j] == ',' && s[j + 1] == ' ') by {
            assert(s[i + first.len()] == text[first.len() as int]);
            assert(s[i + (first.len() + 1)] == text[first.len() as int + 1]);
        }
        assert(s.subrange(j + 2, s.len() as int) =~= rest_text) by {
            assert forall|t: int| 0 <= t < rest_text.len() implies s.subrange(
                j + 2,
                s.len() as int,
            )[t] == rest_text[t] by {
                assert(s[i + (first.len() + 2 + t)] == text[first.len() + 2 + t]);
            }
        }
        lemma_list_reads_back(s, j + 2, rest);
        assert(seq![pts[0]] + rest =~= pts);
    }
}

/// The format round trip: the text of any point sequence spells exactly that
/// sequence, so that reading an emitted polygon and writing the points again
/// gives the identical text.
pub proof fn lemma_round_trip(pts: Seq<Point>)
    ensures
        parse_spec(points_css(pts)) == Some(pts),
{
    let text = points_css(pts);
    if pts.len() == 0 {
        assert(pts =~= Seq::<Point>::empty());
    } else {
        lemma_point_css_nonempty(pts.last());
        assert(text.len() >= 1);
        assert(text.subrange(0, text.len() as int) =~= text);
        lemma_list_reads_back(text, 0, pts);
    }
}

/// The band polygon of a side spells the inner sequence backwards followed by
/// the outer sequence, where neither is empty.
pub proof fn lemma_band_round_trip(inner: Seq<Point>, outer: Seq<Point>)
    requires
        inner.len() >= 1,
        outer.len() >= 1,
    ensures
        parse_spec(band_css(inner, outer)) == Some(inner.reverse() + outer),
{
    lemma_points_css_concat(inner.reverse(), outer);
    lemma_round_trip(inner.reverse() + outer);
}

/// A text in front of a second and a third: the first comes back as the head
/// of the whole, the second as its middle, and a third of one character as its
/// last character.
pub proof fn lemma_wrapped_parts(head: Seq<char>, body: Seq<char>, tail: Seq<char>)
    requires
        tail.len() == 1,
    ensures
        (head + body + tail).len() == head.len() + body.len() + 1,
        (head + body + tail).subrange(0, head.len() as int) == head,
        (head + body + tail).subrange(head.len() as int, head.len() as int + body.len()) == body,
        (head + body + tail)[head.len() as int + body.len()] == tail[0],
{
    let all = head + body + tail;
    assert(all.subrange(0, head.len() as int) =~= head);
    assert(all.subrange(head.len() as int, head.len() as int + body.len()) =~= body);
}

/// Four texts joined one after the other by a separator, behind a word.
pub proof fn lemma_join_four(
    word: Seq<char>,
    sep: Seq<char>,
    pa: Seq<char>,
    pb: Seq<char>,
    pc: Seq<char>,
    pd: Seq<char>,
)
    ensures
        word + pa + sep + pb + sep + pc + sep + pd == word + (pa + sep + pb + sep + pc + sep + pd),
{
    assert(word + pa + sep + pb + sep + pc + sep + pd =~= word + (pa + sep + pb + sep + pc + sep
        + pd));
}

/// The clip polygon is the word `polygon` and, in round brackets, the text of
/// the four inner sequences in its order, where none of them is empty.
#[verifier::spinoff_prover]
pub proof fn lemma_clip_is_list(inner: Outline)
    requires
        inner.top.len() >= 1,
        inner.right.len() >= 1,
        inner.bottom.len() >= 1,
        inner.left.len() >= 1,
    ensures
        clip_css(inner) == "polygon("@ + points_css(
            inner.top + inner.right + inner.bottom.reverse() + inner.left.reverse(),
        ) + ")"@,
{
    let a = inner.top;
    let b = inner.right;
    let c = inner.bottom.reverse();
    let d = inner.left.reverse();
    lemma_points_css_concat(a, b);
    lemma_points_css_concat(a + b, c);
    lemma_points_css_concat(a + b + c, d);
    lemma_join_four(
        "polygon("@,
        ", "@,
        points_css(a),
        points_css(b),
        points_css(c),
        points_css(d),
    );
}

/// The clip polygon of the content spells the four inner sequences in its
/// order: top and right forwards, bottom and left backwards, where none of
/// them is empty.
pub proof fn lemma_clip_round_trip(inner: Outline)
    requires
        inner.top.len() >= 1,
        inner.right.len() >= 1,
        inner.bottom.len() >= 1,
        inner.left.len() >= 1,
    ensures
        parse_polygon_spec(clip_css(inner)) == Some(
            inner.top + inner.right + inner.bottom.reverse() + inner.left.reverse(),
        ),
{
    let all = inner.top + inner.right + inner.bottom.reverse() + inner.left.reverse();
    let list = points_css(all);
    lemma_clip_is_list(inner);
    lemma_round_trip(all);
    assert("polygon("@.len() == 8 && ")"@.len() == 1 && ")"@[0] == ')') by {
        reveal_strlit("polygon(");
        reveal_strlit(")");
    }
    lemma_wrapped_parts("polygon("@, list, ")"@);
    lemma_point_css_nonempty(all.last());
}

} // verus!
