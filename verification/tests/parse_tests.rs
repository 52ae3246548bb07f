use bordered::css::{content_clip_path, make_path_css, points_to_css};
use bordered::params::{Counts, Props};
use bordered::parse::{parse_points, parse_polygon};
use bordered::path::create_path;
use bordered::sampler::Point;

fn pt(x: i64, y: i64) -> Point {
    Point { x, y }
}

#[test]
fn empty_text_spells_no_points() {
    assert_eq!(parse_points(""), Some(vec![]));
}

#[test]
fn one_point_is_read() {
    assert_eq!(parse_points("7.8350% 10.3760%"), Some(vec![pt(78350, 103760)]));
    assert_eq!(parse_points("0.0000% 100.0000%"), Some(vec![pt(0, 1_000_000)]));
    assert_eq!(parse_points("-0.0005% -12.3456%"), Some(vec![pt(-5, -123456)]));
}

#[test]
fn several_points_are_read() {
    assert_eq!(
        parse_points("0.0000% 0.0000%, 100.0000% 0.0000%, 0.0005% -0.0005%"),
        Some(vec![pt(0, 0), pt(1_000_000, 0), pt(5, -5)])
    );
}

#[test]
fn the_ends_of_the_range_are_read() {
    assert_eq!(
        parse_points("922337203685477.5807% -922337203685477.5808%"),
        Some(vec![pt(i64::MAX, i64::MIN)])
    );
    assert_eq!(parse_points("922337203685477.5808% 0.0000%"), None);
    assert_eq!(parse_points("-922337203685477.5809% 0.0000%"), None);
    assert_eq!(parse_points("922337203685478.0000% 0.0000%"), None);
    assert_eq!(parse_points("99999999999999999999999999.0000% 0.0000%"), None);
}

#[test]
fn other_texts_are_refused() {
    for bad in [
        " ",
        "1.0000%",
        "1.0000% 2.0000",
        "1.0000% 2.0000%,",
        "1.0000% 2.0000%, ",
        "1.0000% 2.0000%,3.0000% 4.0000%",
        "1.0000%  2.0000%",
        "1.000% 2.0000%",
        "1.00000% 2.0000%",
        "01.0000% 2.0000%",
        "-0.0000% 2.0000%",
        "+1.0000% 2.0000%",
        ".5000% 2.0000%",
        "1% 2%",
        "1.0000 2.0000",
        "1.0000% 2.0000% ",
        "a.0000% 2.0000%",
        "1.0000% 2.0000%, x",
        "1.00\u{e9}0% 2.0000%",
    ] {
        assert_eq!(parse_points(bad), None, "{}", bad);
    }
}

#[test]
fn written_points_are_read_back() {
    let pts = vec![pt(0, 0), pt(1, -1), pt(999_999, 1_000_000), pt(-123_456_789, 10_000), pt(i64::MAX, i64::MIN)];
    let text = points_to_css(&pts);
    assert_eq!(parse_points(&text), Some(pts.clone()));
    for n in 0..pts.len() {
        let part = points_to_css(&pts[..n]);
        assert_eq!(parse_points(&part), Some(pts[..n].to_vec()));
    }
}

#[test]
fn emitted_polygons_survive_the_round_trip() {
    let mut p = Props::default();
    p.seed = "/about".to_string();
    p.counts = Some(Counts::XY(20, 30));
    p.width_variance = (8_000, 8_000);
    let paths = create_path(10_000_000, 30_000_000, &p);
    let band = make_path_css(&paths.inner_left, &paths.outer_left);
    let read = parse_points(&band).unwrap();
    assert_eq!(read.len(), paths.inner_left.len() + paths.outer_left.len());
    assert_eq!(points_to_css(&read), band);
    let mut expected: Vec<Point> = paths.inner_left.iter().rev().cloned().collect();
    expected.extend(paths.outer_left.iter().cloned());
    assert_eq!(read, expected);

    let clip = content_clip_path(&paths);
    let inside = parse_polygon(&clip).unwrap();
    assert_eq!(format!("polygon({})", points_to_css(&inside)), clip);
    assert_eq!(
        inside.len(),
        paths.inner_top.len() + paths.inner_right.len() + paths.inner_bottom.len() + paths.inner_left.len()
    );
    assert_eq!(inside[0], paths.inner_top[0]);
    assert_eq!(inside[inside.len() - 1], paths.inner_left[0]);
}

#[test]
fn polygon_needs_its_word_and_brackets() {
    assert_eq!(parse_polygon("polygon(1.0000% 2.0000%)"), Some(vec![pt(10_000, 20_000)]));
    assert_eq!(parse_polygon("polygon()"), Some(vec![]));
    assert_eq!(parse_polygon("polygon(1.0000% 2.0000%"), None);
    assert_eq!(parse_polygon("polygon 1.0000% 2.0000%)"), None);
    assert_eq!(parse_polygon("Polygon(1.0000% 2.0000%)"), None);
    assert_eq!(parse_polygon("1.0000% 2.0000%"), None);
    assert_eq!(parse_polygon(""), None);
    assert_eq!(parse_polygon("polygon(1.0000% 2.0000%))"), None);
}
