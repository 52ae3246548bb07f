use bordered::edge::Edge;
use bordered::fixed::FULL;
use bordered::params::Props;
use bordered::sampler::{make_points, Point};

fn pt(x: i64, y: i64) -> Point {
    Point { x, y }
}

fn with_seed(seed: &str) -> Props {
    let mut p = Props::default();
    p.seed = seed.to_string();
    p
}

#[test]
fn zero_count_samples_nothing() {
    let p = Props::default();
    assert!(make_points(0, Edge::Top, &p).is_empty());
    assert!(make_points(0, Edge::Left, &p).is_empty());
}

#[test]
fn sample_has_one_point_more_than_the_count() {
    let p = Props::default();
    assert_eq!(make_points(1, Edge::Top, &p).len(), 2);
    assert_eq!(make_points(20, Edge::Bottom, &p).len(), 21);
    assert_eq!(make_points(30, Edge::Right, &p).len(), 31);
}

#[test]
fn top_sample_is_exact() {
    let p = Props::default();
    assert_eq!(
        make_points(4, Edge::Top, &p),
        vec![
            pt(58762, 97100),
            pt(268206, 39480),
            pt(529018, 331500),
            pt(753062, 0),
            pt(1000000, 246280)
        ]
    );
}

#[test]
fn right_sample_is_transposed_and_mirrored() {
    let p = Props::default();
    assert_eq!(
        make_points(2, Edge::Right, &p),
        vec![pt(694420, 107875), pt(850100, 615550), pt(703540, 1000000)]
    );
}

#[test]
fn left_sample_is_exact() {
    let p = with_seed("homepage");
    assert_eq!(
        make_points(3, Edge::Left, &p),
        vec![pt(37520, 78841), pt(148040, 312167), pt(6460, 686566), pt(0, 1000000)]
    );
}

#[test]
fn sampling_is_deterministic() {
    let p = with_seed("again");
    assert_eq!(make_points(17, Edge::Bottom, &p), make_points(17, Edge::Bottom, &p));
}

#[test]
fn seed_changes_values_but_not_shape() {
    let a = make_points(20, Edge::Top, &with_seed("one"));
    let b = make_points(20, Edge::Top, &with_seed("two"));
    assert_eq!(a.len(), b.len());
    assert_ne!(a, b);
    for q in a.iter().chain(b.iter()) {
        assert!(0 <= q.x && q.x <= FULL && 0 <= q.y && q.y <= FULL);
    }
}

#[test]
fn sides_use_separate_channels() {
    let p = Props::default();
    let top = make_points(10, Edge::Top, &p);
    let bottom = make_points(10, Edge::Bottom, &p);
    let xs_top: Vec<i64> = top.iter().map(|q| q.x).collect();
    let xs_bottom: Vec<i64> = bottom.iter().map(|q| q.x).collect();
    assert_ne!(xs_top, xs_bottom);
}

#[test]
fn extreme_intensity_and_skew_stay_in_range() {
    let mut p = Props::default();
    p.intensity = (10_000_000, 10_000_000);
    p.skew = i32::MAX;
    for e in [Edge::Top, Edge::Bottom, Edge::Right, Edge::Left] {
        for q in make_points(25, e, &p) {
            assert!(0 <= q.x && q.x <= FULL && 0 <= q.y && q.y <= FULL);
        }
    }
    p.intensity = (i32::MIN, i32::MIN);
    p.skew = i32::MIN;
    for e in [Edge::Top, Edge::Bottom, Edge::Right, Edge::Left] {
        for q in make_points(25, e, &p) {
            assert!(0 <= q.x && q.x <= FULL && 0 <= q.y && q.y <= FULL);
        }
    }
}

#[test]
fn zero_skew_gives_even_spacing() {
    let mut p = Props::default();
    p.skew = 0;
    let pts = make_points(4, Edge::Top, &p);
    let xs: Vec<i64> = pts.iter().map(|q| q.x).collect();
    assert_eq!(xs, vec![0, 250000, 500000, 750000, 1000000]);
}

#[test]
fn zero_intensity_flattens_the_side() {
    let mut p = Props::default();
    p.intensity = (0, 0);
    for q in make_points(6, Edge::Top, &p) {
        assert_eq!(q.y, 0);
    }
    for q in make_points(6, Edge::Right, &p) {
        assert_eq!(q.x, FULL);
    }
}

#[test]
fn edge_names() {
    assert_eq!(Edge::Top.to_string(), "top");
    assert_eq!(Edge::Bottom.to_string(), "bottom");
    assert_eq!(Edge::Right.to_string(), "right");
    assert_eq!(Edge::Left.to_string(), "left");
    assert!(Edge::Top.is("top"));
    assert!(!Edge::Top.is("bottom"));
    assert!(!Edge::Left.is("Left"));
    assert!(Edge::Right.is("right"));
}

#[test]
fn seed_and_homepage_give_different_top_sides() {
    let first = make_points(20, Edge::Top, &Props::default());
    let second = make_points(20, Edge::Top, &with_seed("homepage"));
    assert_eq!(first.len(), 21);
    assert_eq!(second.len(), 21);
    assert_ne!(first, second);
    assert_ne!(first[0], second[0]);
}

#[test]
fn positions_keep_their_order_under_small_skew() {
    for skew in [0, 250_000, 500_000] {
        for seed in ["seed", "homepage", "/about"] {
            let mut p = with_seed(seed);
            p.skew = skew;
            for count in [1usize, 3, 20, 97] {
                let top = make_points(count, Edge::Top, &p);
                assert!(top.windows(2).all(|w| w[0].x <= w[1].x));
                let left = make_points(count, Edge::Left, &p);
                assert!(left.windows(2).all(|w| w[0].y <= w[1].y));
            }
        }
    }
}
