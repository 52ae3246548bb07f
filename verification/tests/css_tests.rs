use bordered::css::{
    content_clip_path, decimal_string, make_path_css, point_to_css, points_to_css, reversed,
    short_string,
};
use bordered::edge::Edge;
use bordered::params::{BorderWidth, Counts, Props};
use bordered::path::create_path;
use bordered::sampler::Point;

fn pt(x: i64, y: i64) -> Point {
    Point { x, y }
}

#[test]
fn decimal_text_has_four_places() {
    assert_eq!(decimal_string(0), "0.0000");
    assert_eq!(decimal_string(1_000_000), "100.0000");
    assert_eq!(decimal_string(123_456), "12.3456");
    assert_eq!(decimal_string(5), "0.0005");
    assert_eq!(decimal_string(-5), "-0.0005");
    assert_eq!(decimal_string(-123_456), "-12.3456");
    assert_eq!(decimal_string(10_000), "1.0000");
    assert_eq!(decimal_string(9_999), "0.9999");
    assert_eq!(decimal_string(i64::MAX), "922337203685477.5807");
    assert_eq!(decimal_string(i64::MIN), "-922337203685477.5808");
}

#[test]
fn point_text() {
    assert_eq!(point_to_css(pt(78350, 103760)), "7.8350% 10.3760%");
}

#[test]
fn points_are_joined_by_comma_and_space() {
    assert_eq!(points_to_css(&[]), "");
    assert_eq!(points_to_css(&[pt(0, 1_000_000)]), "0.0000% 100.0000%");
    assert_eq!(
        points_to_css(&[pt(0, 0), pt(1_000_000, 0), pt(5, -5)]),
        "0.0000% 0.0000%, 100.0000% 0.0000%, 0.0005% -0.0005%"
    );
}

#[test]
fn reversed_turns_the_sequence_round() {
    assert_eq!(reversed(&[pt(1, 2), pt(3, 4), pt(5, 6)]), vec![pt(5, 6), pt(3, 4), pt(1, 2)]);
    assert_eq!(reversed(&[]), vec![]);
}

#[test]
fn band_is_inner_backwards_then_outer_forwards() {
    assert_eq!(
        make_path_css(&[pt(10_000, 20_000), pt(30_000, 40_000)], &[pt(0, 0), pt(50_000, 0)]),
        "3.0000% 4.0000%, 1.0000% 2.0000%, 0.0000% 0.0000%, 5.0000% 0.0000%"
    );
}

#[test]
fn band_of_default_top_is_exact() {
    let paths = create_path(600_000, 400_000, &Props::default());
    assert_eq!(
        make_path_css(&paths.inner_top, &paths.outer_top),
        "100.0000% 0.6660%, 70.5357% 33.8160%, 35.7608% 4.6140%, 7.8350% 10.3760%, 7.8350% 9.7100%, 35.7608% 3.9480%, 70.5357% 33.1500%, 100.0000% 0.0000%"
    );
}

#[test]
fn clip_polygon_of_default_region_is_exact() {
    let paths = create_path(600_000, 400_000, &Props::default());
    assert_eq!(
        content_clip_path(&paths),
        "polygon(7.8350% 10.3760%, 35.7608% 4.6140%, 70.5357% 33.8160%, 100.0000% 0.6660%, 99.3340% 0.0000%, 68.7760% 10.7875%, 84.3440% 61.5550%, 93.0457% 93.0140%, 93.7117% 92.3480%, 67.9399% 95.9300%, 28.9717% 99.3340%, 2.2600% 84.5820%, 2.9260% 85.2480%, 7.1260% 50.9750%, 8.5010% 9.7100%)"
    );
}

#[test]
fn clip_polygon_with_two_sides_is_exact() {
    let mut p = Props::default();
    p.counts = Some(Counts::XY(2, 2));
    p.edges = vec![Edge::Top, Edge::Left];
    p.border_width = BorderWidth::Four { t: 20_000, b: 30_000, r: 40_000, l: 50_000 };
    p.width_variance = (5_000, 2_500);
    let paths = create_path(1_800_000, 400_000, &p);
    assert_eq!(
        content_clip_path(&paths),
        "polygon(11.7525% 13.6293%, 53.6412% 7.9670%, 100.0000% 37.2798%, 100.0000% 0.0000%, 100.0000% 100.0000%, 100.0000% 100.0000%, 0.0000% 100.0000%, 48.7776% 100.0000%, 16.4981% 50.9750%, 21.5911% 9.7100%)"
    );
    assert_eq!(
        make_path_css(&paths.inner_left, &paths.outer_left),
        "48.7776% 100.0000%, 16.4981% 50.9750%, 21.5911% 9.7100%, 11.7525% 9.7100%, 6.4600% 50.9750%, 38.5180% 100.0000%"
    );
}

#[test]
fn short_text_drops_trailing_noughts() {
    assert_eq!(short_string(0), "0");
    assert_eq!(short_string(30_000), "3");
    assert_eq!(short_string(15_000), "1.5");
    assert_eq!(short_string(12_500), "1.25");
    assert_eq!(short_string(12_340), "1.234");
    assert_eq!(short_string(12_345), "1.2345");
    assert_eq!(short_string(10_005), "1.0005");
    assert_eq!(short_string(10_050), "1.005");
    assert_eq!(short_string(100), "0.01");
    assert_eq!(short_string(1), "0.0001");
    assert_eq!(short_string(-5_000), "-0.5");
    assert_eq!(short_string(-1_000_000), "-100");
    assert_eq!(short_string(i64::MAX), "922337203685477.5807");
    assert_eq!(short_string(i64::MIN), "-922337203685477.5808");
}

#[test]
fn clip_polygon_without_sides_is_the_rectangle() {
    let mut p = Props::default();
    p.edges = vec![];
    let paths = create_path(6_400_000, 9_600_000, &p);
    assert_eq!(
        content_clip_path(&paths),
        "polygon(0.0000% 0.0000%, 100.0000% 0.0000%, 100.0000% 0.0000%, 100.0000% 100.0000%, 100.0000% 100.0000%, 0.0000% 100.0000%, 0.0000% 100.0000%, 0.0000% 0.0000%)"
    );
}
