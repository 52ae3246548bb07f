//! The border compositor: the fragments of a bordered region, as plain
//! values that a renderer lays out.

use vstd::prelude::*;
use vstd::string::*;
use crate::css::{band_css, clip_css, content_clip_path, make_path_css, short_string, short_text};
use crate::edge::Edge;
use crate::params::{default_model, Props, PropsModel};
use crate::parse::{lemma_band_round_trip, lemma_clip_round_trip, parse_polygon_spec, parse_spec};
use crate::path::{
    counts_fit, create_path, enabled_edges, enabled_for, inner_spec, lemma_outlines_in_range,
    lemma_side_lengths, outer_spec, resolve_counts,
};
use crate::sampler::{all_in_range, Point};

verus! {

/// The fragment of one side: a filled shape clipped to the band polygon of the
/// side, or, where `style` is `None`, an empty placeholder.
#[derive(Debug)]
pub struct BorderShape {
    pub edge: Edge,
    pub style: Option<String>,
}

/// What a border fragment holds, as mathematical values.
pub struct ShapeModel {
    pub edge: Edge,
    pub style: Option<Seq<char>>,
}

impl View for BorderShape {
    type V = ShapeModel;

    open spec fn view(&self) -> ShapeModel {
        ShapeModel { edge: self.edge, style: text_of(self.style) }
    }
}

/// The fragments of a bordered region.
#[derive(Debug)]
pub struct Bordered {
    /// Identifier of the filter.
    pub filter_id: String,
    /// Inline style of the container, which refers to the filter.
    pub style: String,
    /// The title, where one was given.
    pub title: Option<String>,
    /// Inline style of the content fragment, which clips it to the content polygon.
    pub content_style: String,
    /// Class names of the content wrapper.
    pub content_class: String,
    /// The embedded content, unchanged.
    pub content: String,
    /// Inline style of the fragment that holds the borders.
    pub borders_style: String,
    /// The fragments of the four sides in the order right, bottom, left, top.
    pub borders: Vec<BorderShape>,
    /// The definition of the blur-and-threshold filter.
    pub filter: String,
}

/// What the fragments of a bordered region hold, as mathematical values.
pub struct BorderedModel {
    pub filter_id: Seq<char>,
    pub style: Seq<char>,
    pub title: Option<Seq<char>>,
    pub content_style: Seq<char>,
    pub content_class: Seq<char>,
    pub content: Seq<char>,
    pub borders_style: Seq<char>,
    pub borders: Seq<ShapeModel>,
    pub filter: Seq<char>,
}

impl View for Bordered {
    type V = BorderedModel;

    open spec fn view(&self) -> BorderedModel {
        BorderedModel {
            filter_id: self.filter_id@,
            style: self.style@,
            title: text_of(self.title),
            content_style: self.content_style@,
            content_class: self.content_class@,
            content: self.content@,
            borders_style: self.borders_style@,
            borders: Seq::new(self.borders@.len(), |i: int| self.borders@[i]@),
            filter: self.filter@,
        }
    }
}

/// The characters of an optional text.
pub open spec fn text_of(t: Option<String>) -> Option<Seq<char>> {
    match t {
        Some(s) => Some(s@),
        None => None,
    }
}

/// The parameter set in force: the caller's, or the default one.
pub open spec fn props_or_default(props: Option<Props>) -> PropsModel {
    match props {
        Some(p) => p@,
        None => default_model(),
    }
}

/// The inline style that refers to the filter.
pub open spec fn filter_style(filter_id: Seq<char>) -> Seq<char> {
    "filter: url(#"@ + filter_id + ")"@
}

/// The inline style of the fragment that holds the borders.
pub open spec fn borders_style_spec(filter_id: Seq<char>) -> Seq<char> {
    "filter: url(#"@ + filter_id
        + "); pointer-events: none; position: absolute; height: 100%; width: 100%; top: 0; left: 0;"@
}

/// The inline style of a border shape: it covers the region, is filled with
/// the colour, and is clipped to the band polygon.
pub open spec fn shape_style(color: Seq<char>, band: Seq<char>) -> Seq<char> {
    "position:absolute; top:0; left:0; right:0; bottom:0; background: "@ + color
        + "; clip-path: polygon("@ + band + ");"@
}

/// The fragment of one side: a shape where the side is enabled, a placeholder
/// where it is not.
pub open spec fn shape_spec(
    e: Edge,
    on: bool,
    color: Seq<char>,
    inner: Seq<Point>,
    outer: Seq<Point>,
) -> ShapeModel {
    ShapeModel {
        edge: e,
        style: if on {
            Some(shape_style(color, band_css(inner, outer)))
        } else {
            None
        },
    }
}

/// The definition of the filter, keyed by the identifier: a blur whose
/// strength is `goo` in its shortest text, a threshold on the blurred alpha,
/// and the source drawn atop the result.
pub open spec fn filter_spec(filter_id: Seq<char>, goo: int) -> Seq<char> {
    "<filter id=\""@ + filter_id
        + "\">\n                            <feGaussianBlur in=\"SourceGraphic\" stdDeviation=\""@
        + short_text(goo)
        + "\" result=\"blur\"/>\n                            <feColorMatrix in=\"blur\" type=\"matrix\" values=\"1 0 0 0 0  0 1 0 0 0  0 0 1 0 0  0 0 0 19 -9\" result=\"goo\"/>\n                            <feComposite in=\"SourceGraphic\" in2=\"goo\" operator=\"atop\"/>\n                        </filter>"@
}

/// The fragments of a bordered region of the given size, title, content and
/// parameters.
pub open spec fn composed_spec(
    width: int,
    height: int,
    title: Option<Seq<char>>,
    content: Seq<char>,
    props: PropsModel,
) -> BorderedModel {
    let outer = outer_spec(width, height, props);
    let inner = inner_spec(width, height, props);
    let on = enabled_for(width, height, props);
    let id = props.id_card;
    BorderedModel {
        filter_id: id,
        style: filter_style(id),
        title: title,
        content_style: "clip-path: "@ + clip_css(inner) + ";"@,
        content_class: "content-inner max-w-min "@ + props.content_classes,
        content: content,
        borders_style: borders_style_spec(id),
        borders: seq![
            shape_spec(Edge::Right, on.right, props.color, inner.right, outer.right),
            shape_spec(Edge::Bottom, on.bottom, props.color, inner.bottom, outer.bottom),
            shape_spec(Edge::Left, on.left, props.color, inner.left, outer.left),
            shape_spec(Edge::Top, on.top, props.color, inner.top, outer.top),
        ],
        filter: filter_spec(id, props.goo as int),
    }
}

/// Builds the fragment of one side.
fn border_shape(e: Edge, on: bool, color: &String, inner: &Vec<Point>, outer: &Vec<Point>) -> (shape:
    BorderShape)
    ensures
        shape@ == shape_spec(e, on, color@, inner@, outer@),
{
    if on {
        let band = make_path_css(inner.as_slice(), outer.as_slice());
        let mut style = String::from_str(
            "position:absolute; top:0; left:0; right:0; bottom:0; background: ",
        );
        style.append(color.as_str());
        style.append("; clip-path: polygon(");
        style.append(band.as_str());
        style.append(");");
        BorderShape { edge: e, style: Some(style) }
    } else {
        BorderShape { edge: e, style: None }
    }
}

/// Builds the definition of the filter.
fn filter_markup(filter_id: &String, goo: i32) -> (s: String)
    ensures
        s@ == filter_spec(filter_id@, goo as int),
{
    let mut s = String::from_str("<filter id=\"");
    s.append(filter_id.as_str());
    s.append(
        "\">\n                            <feGaussianBlur in=\"SourceGraphic\" stdDeviation=\"",
    );
    let strength = short_string(goo as i64);
    s.append(strength.as_str());
    s.append(
        "\" result=\"blur\"/>\n                            <feColorMatrix in=\"blur\" type=\"matrix\" values=\"1 0 0 0 0  0 1 0 0 0  0 0 1 0 0  0 0 0 19 -9\" result=\"goo\"/>\n                            <feComposite in=\"SourceGraphic\" in2=\"goo\" operator=\"atop\"/>\n                        </filter>",
    );
    s
}

/// Builds the fragments of a bordered region: the container style that refers
/// to the filter, the content clipped to the content polygon, one fragment
/// for each side in the order right, bottom, left, top (a shape where the side
/// is enabled, a placeholder where it is not), and the filter definition.
/// Without parameters the default ones apply. The result is a function of the
/// arguments alone.
pub fn bordered_component(
    width: i32,
    height: i32,
    title: Option<String>,
    content: String,
    props: Option<Props>,
) -> (out: Bordered)
    requires
        props matches Some(p) ==> counts_fit(p.counts),
    ensures
        out@ == composed_spec(
            width as int,
            height as int,
            text_of(title),
            content@,
            props_or_default(props),
        ),
{
    let ghost model = props_or_default(props);
    let props = match props {
        Some(p) => p,
        None => Props::default(),
    };
    let paths = create_path(width, height, &props);
    let counts = resolve_counts(&props.counts, width, height);
    let on = enabled_edges(&props.edges, &counts);

    let content_path = content_clip_path(&paths);

    let filter_id = props.id_card.clone();

    let mut style = String::from_str("filter: url(#");
    style.append(filter_id.as_str());
    style.append(")");

    let mut content_style = String::from_str("clip-path: ");
    content_style.append(content_path.as_str());
    content_style.append(";");

    let mut content_class = String::from_str("content-inner max-w-min ");
    content_class.append(props.content_classes.as_str());

    let mut borders_style = String::from_str("filter: url(#");
    borders_style.append(filter_id.as_str());
    borders_style.append(
        "); pointer-events: none; position: absolute; height: 100%; width: 100%; top: 0; left: 0;",
    );

    let mut borders: Vec<BorderShape> = Vec::new();
    borders.push(border_shape(Edge::Right, on.right, &props.color, &paths.inner_right, &paths.outer_right));
    borders.push(border_shape(Edge::Bottom, on.bottom, &props.color, &paths.inner_bottom, &paths.outer_bottom));
    borders.push(border_shape(Edge::Left, on.left, &props.color, &paths.inner_left, &paths.outer_left));
    borders.push(border_shape(Edge::Top, on.top, &props.color, &paths.inner_top, &paths.outer_top));

    let filter = filter_markup(&filter_id, props.goo);
    let out = Bordered {
        filter_id,
        style,
        title,
        content_style,
        content_class,
        content,
        borders_style,
        borders,
        filter,
    };
    proof {
        assert(props@ == model);
        let spec = composed_spec(width as int, height as int, text_of(title), content@, model);
        assert(out@.borders =~= spec.borders);
    }
    out
}

/// Determinism: two results that meet the contract of `bordered_component`
/// for the same size, title, content and parameters are the same, down to
/// every character of the serialized polygons.
pub proof fn lemma_deterministic(
    width: int,
    height: int,
    title: Option<Seq<char>>,
    content: Seq<char>,
    props: PropsModel,
    first: BorderedModel,
    second: BorderedModel,
)
    requires
        first == composed_spec(width, height, title, content, props),
        second == composed_spec(width, height, title, content, props),
    ensures
        first == second,
        first.content_style == second.content_style,
        first.borders == second.borders,
{
}

/// The range invariant of the emitted polygons: the clip polygon of the
/// content and the band polygon of every side spell point sequences of which
/// every coordinate lies between 0 and 100 percent, whatever the size and the
/// parameters.
pub proof fn lemma_polygons_in_range(width: int, height: int, props: PropsModel, e: Edge)
    ensures
        ({
            let inner = inner_spec(width, height, props);
            let outer = outer_spec(width, height, props);
            &&& parse_polygon_spec(clip_css(inner)) matches Some(points) && all_in_range(points)
            &&& parse_spec(band_css(inner.side(e), outer.side(e))) matches Some(points)
                && all_in_range(points)
        }),
{
    let inner = inner_spec(width, height, props);
    let outer = outer_spec(width, height, props);
    lemma_outlines_in_range(width, height, props);
    lemma_side_lengths(width, height, props, Edge::Top);
    lemma_side_lengths(width, height, props, Edge::Right);
    lemma_side_lengths(width, height, props, Edge::Bottom);
    lemma_side_lengths(width, height, props, Edge::Left);
    lemma_clip_round_trip(inner);
    lemma_band_round_trip(inner.side(e), outer.side(e));
    let clip = inner.top + inner.right + inner.bottom.reverse() + inner.left.reverse();
    assert forall|i: int| 0 <= i < clip.len() implies (#[trigger] clip[i]).in_range() by {
        let a = inner.top.len() as int;
        let b = a + inner.right.len();
        let c = b + inner.bottom.len();
        if i < a {
            assert(clip[i] == inner.top[i]);
        } else if i < b {
            assert(clip[i] == inner.right[i - a]);
        } else if i < c {
            assert(clip[i] == inner.bottom.reverse()[i - b]);
            assert(inner.bottom.reverse()[i - b] == inner.bottom[inner.bottom.len() - 1 - (i - b)]);
        } else {
            assert(clip[i] == inner.left.reverse()[i - c]);
            assert(inner.left.reverse()[i - c] == inner.left[inner.left.len() - 1 - (i - c)]);
        }
    }
    let band = inner.side(e).reverse() + outer.side(e);
    assert forall|i: int| 0 <= i < band.len() implies (#[trigger] band[i]).in_range() by {
        let n = inner.side(e).len() as int;
        if i < n {
            assert(band[i] == inner.side(e).reverse()[i]);
            assert(inner.side(e).reverse()[i] == inner.side(e)[n - 1 - i]);
        } else {
            assert(band[i] == outer.side(e)[i - n]);
        }
    }
}

} // verus!
