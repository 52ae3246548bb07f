//! The four sides of the rectangle.

use vstd::prelude::*;
use vstd::string::*;

verus! {

/// One side of the target rectangle.
#[derive(Clone, Copy, Debug, PartialEq, Eq, Structural)]
pub enum Edge {
    Top,
    Bottom,
    Right,
    Left,
}

impl Edge {
    /// The lower-case name of the side, as a sequence of characters.
    pub open spec fn name(self) -> Seq<char> {
        match self {
            Edge::Top => "top"@,
            Edge::Bottom => "bottom"@,
            Edge::Right => "right"@,
            Edge::Left => "left"@,
        }
    }

    /// The suffix that qualifies a seed for this side: a hyphen and the name.
    pub open spec fn suffix(self) -> Seq<char> {
        match self {
            Edge::Top => "-top"@,
            Edge::Bottom => "-bottom"@,
            Edge::Right => "-right"@,
            Edge::Left => "-left"@,
        }
    }

    /// Top and bottom run along the x axis.
    pub open spec fn is_horizontal(self) -> bool {
        self == Edge::Top || self == Edge::Bottom
    }

    /// Bottom and right are the far sides, whose displacement is mirrored.
    pub open spec fn is_far(self) -> bool {
        self == Edge::Bottom || self == Edge::Right
    }

    /// The lower-case name of the side.
    pub fn to_string(&self) -> (s: String)
        ensures
            s@ == self.name(),
    {
        match self {
            Edge::Top => String::from_str("top"),
            Edge::Bottom => String::from_str("bottom"),
            Edge::Right => String::from_str("right"),
            Edge::Left => String::from_str("left"),
        }
    }

    /// Whether `side` is the name of this side.
    pub fn is(&self, side: &str) -> (b: bool)
        ensures
            b == (self.name() == side@),
    {
        let own = self.to_string();
        let other = String::from_str(side);
        own == other
    }

    /// The seed suffix of the side, as text.
    pub fn suffix_str(&self) -> (s: &'static str)
        ensures
            s@ == self.suffix(),
    {
        match self {
            Edge::Top => "-top",
            Edge::Bottom => "-bottom",
            Edge::Right => "-right",
            Edge::Left => "-left",
        }
    }

    /// Whether the side runs along the x axis.
    pub fn horizontal(&self) -> (b: bool)
        ensures
            b == self.is_horizontal(),
    {
        match self {
            Edge::Top => true,
            Edge::Bottom => true,
            Edge::Right => false,
            Edge::Left => false,
        }
    }

    /// Whether the side is a far side.
    pub fn far(&self) -> (b: bool)
        ensures
            b == self.is_far(),
    {
        match self {
            Edge::Top => false,
            Edge::Bottom => true,
            Edge::Right => true,
            Edge::Left => false,
        }
    }
}

/// Whether `e` occurs in `edges`.
pub fn has_edge(edges: &Vec<Edge>, e: Edge) -> (b: bool)
    ensures
        b == edges@.contains(e),
{
    let mut i: usize = 0;
    while i < edges.len()
        invariant
            i <= edges@.len(),
            forall|k: int| 0 <= k < i ==> edges@[k] != e,
        decreases edges@.len() - i,
    {
        if edges[i] == e {
            return true;
        }
        i += 1;
    }
    false
}

} // verus!
