//! The parameter set of one invocation.

use vstd::prelude::*;
use vstd::string::*;
use crate::edge::Edge;

verus! {

/// Sample counts: one pair for the horizontal and the vertical sides, or one
/// count per side (top, bottom, right, left). A count of zero disables a side.
#[derive(Clone, Copy, Debug, PartialEq, Eq, Structural)]
pub enum Counts {
    XY(usize, usize),
    TBRL(usize, usize, usize, usize),
}

/// Border thickness in fixed point: one value for all sides, one per side, or
/// a pair of which the first applies to right and left and the second to top
/// and bottom.
#[derive(Clone, Copy, Debug, PartialEq, Eq, Structural)]
pub enum BorderWidth {
    Single(i32),
    Four { t: i32, b: i32, r: i32, l: i32 },
    WidthHeight(i32, i32),
}

/// The parameter set. Real quantities are fixed-point numbers with four
/// decimal places.
#[derive(Debug)]
pub struct Props {
    /// Fill colour of the border shapes.
    pub color: String,
    /// Sole source of the pseudo-randomness.
    pub seed: String,
    /// Strength of the blur of the filter.
    pub goo: i32,
    /// Scale of the perpendicular displacement on horizontal and on vertical
    /// sides.
    pub intensity: (i32, i32),
    /// Scale of the thickness noise; the second applies to top and bottom, the
    /// first to right and left.
    pub width_variance: (i32, i32),
    /// Sample counts; `None` derives them from the size of the region.
    pub counts: Option<Counts>,
    /// Identifier of the shared filter.
    pub id_card: String,
    /// Border thickness.
    pub border_width: BorderWidth,
    /// How far sample positions may drift along the side, in percent of a step.
    pub skew: i32,
    /// The sides that are decorated.
    pub edges: Vec<Edge>,
    /// Reserved.
    pub debug: bool,
    /// Class names handed on to the content wrapper.
    pub content_classes: String,
}

/// What a parameter set holds, as mathematical values.
pub struct PropsModel {
    pub color: Seq<char>,
    pub seed: Seq<char>,
    pub goo: i32,
    pub intensity: (i32, i32),
    pub width_variance: (i32, i32),
    pub counts: Option<Counts>,
    pub id_card: Seq<char>,
    pub border_width: BorderWidth,
    pub skew: i32,
    pub edges: Seq<Edge>,
    pub debug: bool,
    pub content_classes: Seq<char>,
}

impl View for Props {
    type V = PropsModel;

    open spec fn view(&self) -> PropsModel {
        PropsModel {
            color: self.color@,
            seed: self.seed@,
            goo: self.goo,
            intensity: self.intensity,
            width_variance: self.width_variance,
            counts: self.counts,
            id_card: self.id_card@,
            border_width: self.border_width,
            skew: self.skew,
            edges: self.edges@,
            debug: self.debug,
            content_classes: self.content_classes@,
        }
    }
}

/// The default parameter set: colour `#222222`, seed `seed`, goo 3, intensity
/// (1, 1), no width variance, counts derived from the size, filter `goo`,
/// border width 1, skew 25, all four sides, no debugging, no classes.
pub open spec fn default_model() -> PropsModel {
    PropsModel {
        color: "#222222"@,
        seed: "seed"@,
        goo: 30_000,
        intensity: (10_000i32, 10_000i32),
        width_variance: (0i32, 0i32),
        counts: None,
        id_card: "goo"@,
        border_width: BorderWidth::Single(10_000),
        skew: 250_000,
        edges: all_edges(),
        debug: false,
        content_classes: Seq::empty(),
    }
}

/// The sequence of all four sides in the order top, bottom, right, left.
pub open spec fn all_edges() -> Seq<Edge> {
    seq![Edge::Top, Edge::Bottom, Edge::Right, Edge::Left]
}

impl Clone for Props {
    fn clone(&self) -> (p: Props)
        ensures
            p@ == self@,
    {
        let edges = self.edges.clone();
        proof {
            assert(edges@ =~= self.edges@);
        }
        Props {
            color: self.color.clone(),
            seed: self.seed.clone(),
            goo: self.goo,
            intensity: (self.intensity.0, self.intensity.1),
            width_variance: (self.width_variance.0, self.width_variance.1),
            counts: self.counts,
            id_card: self.id_card.clone(),
            border_width: self.border_width,
            skew: self.skew,
            edges,
            debug: self.debug,
            content_classes: self.content_classes.clone(),
        }
    }
}

impl Default for Props {
    fn default() -> (p: Props)
        ensures
            p@ == default_model(),
    {
        let mut edges: Vec<Edge> = Vec::new();
        edges.push(Edge::Top);
        edges.push(Edge::Bottom);
        edges.push(Edge::Right);
        edges.push(Edge::Left);
        proof {
            assert(edges@ =~= all_edges());
        }
        Props {
            color: String::from_str("#222222"),
            seed: String::from_str("seed"),
            goo: 30_000,
            intensity: (10_000, 10_000),
            width_variance: (0, 0),
            counts: None,
            id_card: String::from_str("goo"),
            border_width: BorderWidth::Single(10_000),
            skew: 250_000,
            edges,
            debug: false,
            content_classes: String::new(),
        }
    }
}

} // verus!
