use bordered::compose::{bordered_component, Bordered};
use bordered::css::{content_clip_path, make_path_css};
use bordered::edge::Edge;
use bordered::params::{BorderWidth, Counts, Props};
use bordered::path::create_path;

fn about() -> Props {
    let mut p = Props::default();
    p.seed = "/about".to_string();
    p.counts = Some(Counts::XY(20, 30));
    p.border_width = BorderWidth::WidthHeight(600, 100);
    p.edges = vec![Edge::Top, Edge::Bottom, Edge::Left, Edge::Right];
    p.width_variance = (8_000, 8_000);
    p
}

fn same(a: &Bordered, b: &Bordered) -> bool {
    a.filter_id == b.filter_id
        && a.style == b.style
        && a.title == b.title
        && a.content_style == b.content_style
        && a.content_class == b.content_class
        && a.content == b.content
        && a.borders_style == b.borders_style
        && a.filter == b.filter
        && a.borders.len() == b.borders.len()
        && a.borders.iter().zip(b.borders.iter()).all(|(x, y)| x.edge == y.edge && x.style == y.style)
}

fn vertices(polygon: &str) -> usize {
    polygon.split(", ").count()
}

#[test]
fn default_props_hold_the_defaults() {
    let p = Props::default();
    assert_eq!(p.color, "#222222");
    assert_eq!(p.seed, "seed");
    assert_eq!(p.goo, 30_000);
    assert_eq!(p.intensity, (10_000, 10_000));
    assert_eq!(p.width_variance, (0, 0));
    assert_eq!(p.counts, None);
    assert_eq!(p.id_card, "goo");
    assert_eq!(p.border_width, BorderWidth::Single(10_000));
    assert_eq!(p.skew, 250_000);
    assert_eq!(p.edges, vec![Edge::Top, Edge::Bottom, Edge::Right, Edge::Left]);
    assert!(!p.debug);
    assert_eq!(p.content_classes, "");
    let q = p.clone();
    assert_eq!(q.seed, p.seed);
    assert_eq!(q.edges, p.edges);
}

#[test]
fn end_to_end_about_page() {
    let content = "<p>hello</p>".to_string();
    let a = bordered_component(10_000_000, 30_000_000, None, content.clone(), Some(about()));
    let b = bordered_component(10_000_000, 30_000_000, None, content.clone(), Some(about()));
    assert!(same(&a, &b));
    assert_eq!(a.borders.len(), 4);
    assert_eq!(a.content, content);
    assert_eq!(a.title, None);
    let paths = create_path(10_000_000, 30_000_000, &about());
    assert_eq!(paths.inner_top.len(), 21);
    assert_eq!(paths.inner_right.len(), 17);
    assert_eq!(paths.inner_bottom.len(), 21);
    assert_eq!(paths.inner_left.len(), 23);
    for side in [&paths.inner_top, &paths.inner_right, &paths.inner_bottom, &paths.inner_left] {
        assert!(side.len() <= 42);
    }
    let sides = [
        (&paths.inner_right, &paths.outer_right),
        (&paths.inner_bottom, &paths.outer_bottom),
        (&paths.inner_left, &paths.outer_left),
        (&paths.inner_top, &paths.outer_top),
    ];
    for (shape, (inner, outer)) in a.borders.iter().zip(sides.iter()) {
        let style = shape.style.as_ref().unwrap();
        let start = style.find("polygon(").unwrap() + "polygon(".len();
        let polygon = &style[start..style.len() - 2];
        assert_eq!(vertices(polygon), inner.len() + outer.len());
        assert_eq!(inner.len(), outer.len());
    }
    assert_eq!(a.content_style, format!("clip-path: {};", content_clip_path(&paths)));
    assert_eq!(vertices(&a.content_style), 21 + 17 + 21 + 23);
    assert_eq!(a.content_style.len(), "clip-path: ".len() + 1542 + 1);
}

#[test]
fn fragments_come_in_the_order_right_bottom_left_top() {
    let a = bordered_component(600_000, 400_000, None, String::new(), None);
    let order: Vec<Edge> = a.borders.iter().map(|s| s.edge).collect();
    assert_eq!(order, vec![Edge::Right, Edge::Bottom, Edge::Left, Edge::Top]);
    assert!(a.borders.iter().all(|s| s.style.is_some()));
}

#[test]
fn default_region_fragments_are_exact() {
    let a = bordered_component(
        600_000,
        400_000,
        Some("Title".to_string()),
        "<b>x</b>".to_string(),
        None,
    );
    assert_eq!(a.filter_id, "goo");
    assert_eq!(a.style, "filter: url(#goo)");
    assert_eq!(a.title, Some("Title".to_string()));
    assert_eq!(a.content, "<b>x</b>");
    assert_eq!(a.content_class, "content-inner max-w-min ");
    assert_eq!(
        a.borders_style,
        "filter: url(#goo); pointer-events: none; position: absolute; height: 100%; width: 100%; top: 0; left: 0;"
    );
    assert_eq!(
        a.content_style,
        "clip-path: polygon(7.8350% 10.3760%, 35.7608% 4.6140%, 70.5357% 33.8160%, 100.0000% 0.6660%, 99.3340% 0.0000%, 68.7760% 10.7875%, 84.3440% 61.5550%, 93.0457% 93.0140%, 93.7117% 92.3480%, 67.9399% 95.9300%, 28.9717% 99.3340%, 2.2600% 84.5820%, 2.9260% 85.2480%, 7.1260% 50.9750%, 8.5010% 9.7100%);"
    );
    assert_eq!(
        a.borders[3].style,
        Some(
            "position:absolute; top:0; left:0; right:0; bottom:0; background: #222222; clip-path: polygon(100.0000% 0.6660%, 70.5357% 33.8160%, 35.7608% 4.6140%, 7.8350% 10.3760%, 7.8350% 9.7100%, 35.7608% 3.9480%, 70.5357% 33.1500%, 100.0000% 0.0000%);"
                .to_string()
        )
    );
    assert_eq!(
        a.filter,
        "<filter id=\"goo\">\n                            <feGaussianBlur in=\"SourceGraphic\" stdDeviation=\"3\" result=\"blur\"/>\n                            <feColorMatrix in=\"blur\" type=\"matrix\" values=\"1 0 0 0 0  0 1 0 0 0  0 0 1 0 0  0 0 0 19 -9\" result=\"goo\"/>\n                            <feComposite in=\"SourceGraphic\" in2=\"goo\" operator=\"atop\"/>\n                        </filter>"
    );
}

#[test]
fn disabled_sides_give_placeholders() {
    let mut p = Props::default();
    p.edges = vec![Edge::Top, Edge::Right];
    p.counts = Some(Counts::TBRL(4, 4, 0, 4));
    p.color = "red".to_string();
    p.id_card = "card".to_string();
    p.content_classes = "wide".to_string();
    p.goo = 25_000;
    let a = bordered_component(600_000, 400_000, None, String::new(), Some(p.clone()));
    assert_eq!(a.borders.len(), 4);
    assert_eq!(a.borders[0].edge, Edge::Right);
    assert_eq!(a.borders[0].style, None);
    assert_eq!(a.borders[1].style, None);
    assert_eq!(a.borders[2].style, None);
    let paths = create_path(600_000, 400_000, &p);
    assert_eq!(
        a.borders[3].style,
        Some(format!(
            "position:absolute; top:0; left:0; right:0; bottom:0; background: red; clip-path: polygon({});",
            make_path_css(&paths.inner_top, &paths.outer_top)
        ))
    );
    assert_eq!(a.filter_id, "card");
    assert_eq!(a.style, "filter: url(#card)");
    assert!(a.borders_style.starts_with("filter: url(#card);"));
    assert_eq!(a.content_class, "content-inner max-w-min wide");
    assert!(a.filter.contains(" stdDeviation=\"2.5\" "));
    assert!(a.filter.starts_with("<filter id=\"card\">"));
    assert_eq!(a.filter.matches("<filter ").count(), 1);
}

#[test]
fn seed_changes_the_polygons() {
    let mut p = Props::default();
    p.seed = "other".to_string();
    let a = bordered_component(600_000, 400_000, None, String::new(), None);
    let b = bordered_component(600_000, 400_000, None, String::new(), Some(p));
    assert_ne!(a.content_style, b.content_style);
    assert_eq!(vertices(&a.content_style) > 0, vertices(&b.content_style) > 0);
}

fn coordinates(text: &str) -> Vec<f64> {
    let mut found = Vec::new();
    for piece in text.split('%') {
        let number: String = piece
            .chars()
            .rev()
            .take_while(|c| c.is_ascii_digit() || *c == '.' || *c == '-')
            .collect::<Vec<char>>()
            .into_iter()
            .rev()
            .collect();
        if !number.is_empty() && text.contains("polygon(") {
            if let Ok(v) = number.parse::<f64>() {
                found.push(v);
            }
        }
    }
    found
}

#[test]
fn emitted_numbers_stay_between_nought_and_hundred() {
    let mut wide = Props::default();
    wide.counts = Some(Counts::XY(1, 1));
    let mut strong = Props::default();
    strong.counts = Some(Counts::XY(7, 9));
    strong.intensity = (10_000_000, 10_000_000);
    strong.skew = i32::MAX;
    strong.width_variance = (i32::MAX, i32::MIN);
    strong.border_width = BorderWidth::Four { t: i32::MAX, b: i32::MIN, r: 5, l: -70_000 };
    for (width, props) in [(180_000_000, wide), (i32::MAX, strong)] {
        let a = bordered_component(width, 400_000, None, String::new(), Some(props));
        let mut seen = 0;
        let clip = a.content_style.trim_start_matches("clip-path: ");
        for v in coordinates(clip) {
            assert!((0.0..=100.0).contains(&v), "{}", v);
            seen += 1;
        }
        for shape in a.borders.iter() {
            let style = shape.style.as_ref().unwrap();
            let start = style.find("polygon(").unwrap();
            for v in coordinates(&style[start..]) {
                assert!((0.0..=100.0).contains(&v), "{}", v);
                seen += 1;
            }
        }
        assert!(seen >= 3 * 2 * 8);
    }
}

#[test]
fn blur_strength_is_written_in_its_shortest_form() {
    for (goo, text) in [(30_000, "3"), (15_000, "1.5"), (10_000, "1"), (12_500, "1.25"), (1, "0.0001"), (0, "0")] {
        let mut p = Props::default();
        p.goo = goo;
        let a = bordered_component(600_000, 400_000, None, String::new(), Some(p));
        assert!(a.filter.contains(&format!(" stdDeviation=\"{}\" ", text)), "{}", a.filter);
    }
}
