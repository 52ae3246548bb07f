//! Small rules of page layouts: class names for layout options and the
//! normal form of a path.

use vstd::prelude::*;
use vstd::string::*;

verus! {

/// The class of a container width: `narrow` and `full` have classes of their
/// own, every other value is wide.
pub open spec fn container_width_class_spec(value: Seq<char>) -> Seq<char> {
    if value == "narrow"@ {
        "atlas-container-narrow"@
    } else if value == "full"@ {
        "atlas-container-full"@
    } else {
        "atlas-container-wide"@
    }
}

/// The class of a header style: `glass` has a class of its own, every other
/// value is solid.
pub open spec fn header_style_class_spec(value: Seq<char>) -> Seq<char> {
    if value == "glass"@ {
        "atlas-glass"@
    } else {
        "atlas-header-solid"@
    }
}

/// The class of a navigation link, active or not.
pub open spec fn nav_link_class_spec(active: bool) -> Seq<char> {
    if active {
        "atlas-nav-link is-active"@
    } else {
        "atlas-nav-link"@
    }
}

/// Whether the text is the given word.
fn is_word(value: &str, word: &str) -> (b: bool)
    ensures
        b == (value@ == word@),
{
    let a = String::from_str(value);
    let w = String::from_str(word);
    a == w
}

/// The class name for a container width.
pub fn container_width_class(value: &str) -> (class: &'static str)
    ensures
        class@ == container_width_class_spec(value@),
{
    if is_word(value, "narrow") {
        "atlas-container-narrow"
    } else if is_word(value, "full") {
        "atlas-container-full"
    } else {
        "atlas-container-wide"
    }
}

/// The class name for a header style.
pub fn header_style_class(value: &str) -> (class: &'static str)
    ensures
        class@ == header_style_class_spec(value@),
{
    if is_word(value, "glass") {
        "atlas-glass"
    } else {
        "atlas-header-solid"
    }
}

/// The class name of a navigation link.
pub fn nav_link_class(active: bool) -> (class: &'static str)
    ensures
        class@ == nav_link_class_spec(active),
{
    if active {
        "atlas-nav-link is-active"
    } else {
        "atlas-nav-link"
    }
}

/// Whether the character is white space: the characters with the Unicode
/// property White_Space.
pub open spec fn is_space(c: char) -> bool {
    let u = c as u32;
    (0x0009 <= u <= 0x000D) || u == 0x0020 || u == 0x0085 || u == 0x00A0 || u == 0x1680 || (0x2000
        <= u <= 0x200A) || u == 0x2028 || u == 0x2029 || u == 0x202F || u == 0x205F || u == 0x3000
}

/// `s` without its leading white space.
pub open spec fn trim_start_spec(s: Seq<char>) -> Seq<char>
    decreases s.len(),
{
    if s.len() > 0 && is_space(s[0]) {
        trim_start_spec(s.drop_first())
    } else {
        s
    }
}

/// `s` without its trailing white space.
pub open spec fn trim_end_spec(s: Seq<char>) -> Seq<char>
    decreases s.len(),
{
    if s.len() > 0 && is_space(s.last()) {
        trim_end_spec(s.drop_last())
    } else {
        s
    }
}

/// `s` without its trailing slashes.
pub open spec fn strip_slashes(s: Seq<char>) -> Seq<char>
    decreases s.len(),
{
    if s.len() > 0 && s.last() == '/' {
        strip_slashes(s.drop_last())
    } else {
        s
    }
}

/// The normal form of a path: white space at both ends removed, then the
/// slashes at the end; a single slash where nothing is left.
pub open spec fn normalize_path_spec(path: Seq<char>) -> Seq<char> {
    let kept = strip_slashes(trim_end_spec(trim_start_spec(path)));
    if kept.len() == 0 {
        "/"@
    } else {
        kept
    }
}

/// Whether the character is white space.
fn space_code(c: char) -> (b: bool)
    ensures
        b == is_space(c),
{
    let u: u32 = c as u32;
    (0x0009 <= u && u <= 0x000D) || u == 0x0020 || u == 0x0085 || u == 0x00A0 || u == 0x1680 || (
    0x2000 <= u && u <= 0x200A) || u == 0x2028 || u == 0x2029 || u == 0x202F || u == 0x205F || u
        == 0x3000
}

/// Brings a path into its normal form, in which two paths to the same page
/// are equal: white space around it and slashes at its end are dropped, and
/// the empty path is the root.
pub fn normalize_path(path: &str) -> (r: String)
    ensures
        r@ == normalize_path_spec(path@),
{
    let len = path.unicode_len();
    let mut start: usize = 0;
    proof {
        assert(path@.subrange(0, len as int) =~= path@);
    }
    while start < len && space_code(path.get_char(start))
        invariant
            len == path@.len(),
            start <= len,
            trim_start_spec(path@.subrange(start as int, len as int)) == trim_start_spec(path@),
        decreases len - start,
    {
        proof {
            assert(path@.subrange(start as int, len as int).drop_first() =~= path@.subrange(
                start + 1,
                len as int,
            ));
        }
        start += 1;
    }
    let ghost front = path@.subrange(start as int, len as int);
    assert(front == trim_start_spec(path@));
    let mut end: usize = len;
    while end > start && space_code(path.get_char(end - 1))
        invariant
            len == path@.len(),
            start <= end <= len,
            trim_end_spec(path@.subrange(start as int, end as int)) == trim_end_spec(front),
        decreases end,
    {
        proof {
            assert(path@.subrange(start as int, end as int).drop_last() =~= path@.subrange(
                start as int,
                end - 1,
            ));
        }
        end -= 1;
    }
    let ghost both = path@.subrange(start as int, end as int);
    assert(both == trim_end_spec(front));
    while end > start && path.get_char(end - 1) == '/'
        invariant
            len == path@.len(),
            start <= end <= len,
            strip_slashes(path@.subrange(start as int, end as int)) == strip_slashes(both),
        decreases end,
    {
        proof {
            assert(path@.subrange(start as int, end as int).drop_last() =~= path@.subrange(
                start as int,
                end - 1,
            ));
        }
        end -= 1;
    }
    assert(path@.subrange(start as int, end as int) == strip_slashes(both));
    if start == end {
        String::from_str("/")
    } else {
        String::from_str(path.substring_char(start, end))
    }
}

} // verus!
