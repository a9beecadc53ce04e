//! Tests for the vector and rectangle primitives.  Coordinates are in
//! thousandths of a pixel, so `3_000` here is what `3.0` is on screen.

use pong_core::point::Point;
use pong_core::rect::Rect;

fn assert_point_xy(point: &Point, x: i64, y: i64) {
    assert_eq!(point.x, x);
    assert_eq!(point.y, y);
}

fn assert_rect_xywh(rect: &Rect, x: i64, y: i64, w: i64, h: i64) {
    assert_point_xy(&rect.top_left, x, y);
    assert_point_xy(&rect.size, w, h);
}

#[test]
fn point_test_new() {
    let point = Point::new(3_000, 4_000);
    assert_point_xy(&point, 3_000, 4_000);
}

#[test]
fn test_equal() {
    assert_eq!(Point::new(3_000, 4_000), Point::new(3_000, 4_000));
}

#[test]
fn test_almost_equal() {
    let margin: i64 = 1;
    let p = Point::new(3_000, 4_000);
    let p2 = p.add(Point::new(margin / 2, -margin / 2));
    assert!(p.almost_equal(&p2));
}

#[test]
fn test_length() {
    let point = Point::new(3_000, 4_000);
    let expects = 5_000;
    assert_eq!(point.length(), expects);
}

#[test]
fn test_normalized() {
    let point = Point::new(3_000, 4_000);
    let length = point.length();
    let expected = Point::new(point.x * 1_000 / length, point.y * 1_000 / length);
    let normalized = point.normalized();
    assert!(normalized.almost_equal(&expected));

    let zero_point = Point::new(0, 0);
    assert_point_xy(&zero_point.normalized(), 0, 0);
}

#[test]
fn test_abs() {
    let point = Point::new(-3_000, -4_000);
    assert_point_xy(&point.abs(), 3_000, 4_000);
}

#[test]
fn test_signum() {
    let point = Point::new(-3_000, 4_000);
    assert_point_xy(&point.signum(), -1, 1);

    let other = Point::new(3_000, -4_000);
    assert_point_xy(&other.signum(), 1, -1);
}

#[test]
fn test_zero_constant() {
    assert_point_xy(&Point::zero(), 0, 0);
}

#[test]
fn test_point_ops() {
    let s = Point::new(1_000, 2_000);
    let m = Point::new(3_000, 4_000);

    assert_point_xy(&s.add(m), 4_000, 6_000);
    assert_point_xy(&s.sub(m), -2_000, -2_000);
    assert_point_xy(&Point::new(3, 4).mul_components(Point::new(-1, 1)), -3, 4);

    // Fixed-point scalar: scaling by 2.0 (2_000 units) doubles.
    assert_point_xy(&s.mul_fp(2_000), 2_000, 4_000);
    // Scaling by 1.0 is the identity.
    assert_point_xy(&s.mul_fp(1_000), 1_000, 2_000);
}

#[test]
fn rect_test_new() {
    let rect = Rect::new(Point::new(1_000, 2_000), Point::new(3_000, 4_000));
    assert_rect_xywh(&rect, 1_000, 2_000, 3_000, 4_000);
}

#[test]
fn test_with_xywh() {
    let rect = Rect::with_xywh(1_000, 2_000, 3_000, 4_000);
    assert_rect_xywh(&rect, 1_000, 2_000, 3_000, 4_000);
}

#[test]
fn test_with_size() {
    let rect = Rect::with_size(Point::new(3_000, 4_000));
    assert_rect_xywh(&rect, 0, 0, 3_000, 4_000);
}

#[test]
fn test_setters() {
    let mut rect = Rect::new(Point::new(1_000, 2_000), Point::new(3_000, 4_000));
    rect.set_x(5_000);
    rect.set_y(6_000);
    rect.set_width(7_000);
    rect.set_height(8_000);
    assert_rect_xywh(&rect, 5_000, 6_000, 7_000, 8_000);
}

#[test]
fn test_right_and_bottom() {
    let rect = Rect::new(Point::new(1_000, 2_000), Point::new(3_000, 4_000));
    assert_point_xy(&rect.bottom_right(), 1_000 + 3_000, 2_000 + 4_000);
}

#[test]
fn test_set_right_and_bottom() {
    let mut rect = Rect::new(Point::new(1_000, 2_000), Point::new(3_000, 4_000));
    let expected = Point::new(10_000, 20_000);
    rect.set_bottom_right(expected);
    assert!(rect.bottom_right().almost_equal(&expected));
}

#[test]
fn test_center() {
    let rect = Rect::new(Point::new(1_000, 2_000), Point::new(4_000, 6_000));
    let center = rect.center();
    let expected = Point::new(1_000 + 4_000 / 2, 2_000 + 6_000 / 2);
    assert!(center.almost_equal(&expected));
}

#[test]
fn test_intersects_with() {
    let tl = Rect::with_xywh(0, 0, 1_000, 1_000);
    let tr = Rect::with_xywh(2_000, 0, 1_000, 1_000);
    let bl = Rect::with_xywh(0, 2_000, 1_000, 1_000);
    let br = Rect::with_xywh(2_000, 2_000, 1_000, 1_000);

    let hc = Rect::with_xywh(0, 1_000, 3_000, 1_000);
    let vc = Rect::with_xywh(1_000, 0, 1_000, 3_000);

    let rects = [tl, tr, bl, br];
    for i in 1..rects.len() {
        for j in 0..i {
            assert!(
                !rects[i].intersects_with(&rects[j]),
                "Rectangles should not intersect: {:?} and {:?}",
                rects[i],
                rects[j]
            );
        }

        assert!(
            !rects[i].intersects_with(&hc),
            "Rectangles should not intersect: {:?} and {:?}",
            rects[i],
            hc
        );

        assert!(
            !rects[i].intersects_with(&vc),
            "Rectangles should not intersect: {:?} and {:?}",
            rects[i],
            vc
        );
    }

    assert!(hc.intersects_with(&vc), "Should intersect");

    let ht = Rect::with_xywh(0, 0, 3_000, 1_000);
    let hb = Rect::with_xywh(0, 2_000, 3_000, 1_000);
    let vl = Rect::with_xywh(0, 0, 1_000, 3_000);
    let vr = Rect::with_xywh(2_000, 0, 1_000, 3_000);

    let intersections = [
        [ht, tl, tr, vl, vc, vr],
        [hc, vl, vc, vr, hc, hc], // padded with hc so it compiles
        [hb, bl, br, vl, vc, vr],
        [vl, tl, bl, ht, hc, hb],
        [vc, ht, hc, hb, vc, vc],
        [vr, tr, br, ht, hc, hb],
    ];

    for i in 0..intersections.len() {
        let intersector = intersections[i][0];
        for j in 1..intersections[i].len() {
            assert!(
                intersector.intersects_with(&intersections[i][j]),
                "Rectangles should intersect: {:?} and {:?}",
                intersector,
                intersections[i][j]
            );
        }
    }
}

#[test]
fn test_keep_inside() {
    let container = Rect::with_xywh(0, 0, 10_000, 10_000);
    let mut rect = Rect::with_xywh(-5_000, -5_000, 4_000, 4_000);

    rect.keep_inside(container);
    assert!(rect.top_left.almost_equal(&Point::new(0, 0)));

    rect.set_x(8_000);
    rect.set_y(8_000);
    rect.keep_inside(container);
    assert!(
        rect.bottom_right().almost_equal(&Point::new(10_000, 10_000)),
        "Expected bottom right to align.. {:?}",
        rect.bottom_right()
    );
}

#[test]
fn test_intersection_is_symmetric() {
    let a = Rect::with_xywh(0, 0, 5_000, 5_000);
    let b = Rect::with_xywh(3_000, 3_000, 5_000, 5_000);
    let c = Rect::with_xywh(20_000, 0, 1_000, 1_000);
    assert_eq!(a.intersects_with(&b), b.intersects_with(&a));
    assert!(a.intersects_with(&b));
    assert_eq!(a.intersects_with(&c), c.intersects_with(&a));
    assert!(!a.intersects_with(&c));
}

#[test]
fn test_touching_edges_do_not_intersect() {
    // b starts exactly where a ends: a shared edge, zero-area overlap.
    let a = Rect::with_xywh(0, 0, 5_000, 5_000);
    let b = Rect::with_xywh(5_000, 0, 5_000, 5_000);
    let below = Rect::with_xywh(0, 5_000, 5_000, 5_000);
    assert!(!a.intersects_with(&b));
    assert!(!b.intersects_with(&a));
    assert!(!a.intersects_with(&below));
}

#[test]
fn test_keep_inside_stays_within_container() {
    let container = Rect::with_xywh(1_000, 2_000, 20_000, 30_000);
    let mut rect = Rect::with_xywh(100_000, -50_000, 4_000, 6_000);
    rect.keep_inside(container);
    assert!(rect.top_left.x >= container.top_left.x);
    assert!(rect.top_left.y >= container.top_left.y);
    assert!(rect.bottom_right().x <= container.bottom_right().x);
    assert!(rect.bottom_right().y <= container.bottom_right().y);
}

#[test]
fn test_keep_inside_twice_is_keep_inside_once() {
    let container = Rect::with_xywh(0, 0, 10_000, 10_000);

    let mut once = Rect::with_xywh(7_000, -3_000, 4_000, 4_000);
    let mut twice = once;
    once.keep_inside(container);
    twice.keep_inside(container);
    twice.keep_inside(container);
    assert_eq!(once, twice);

    // Even an oversized rectangle settles after one clamp: the later
    // bottom-right check wins the tie and aligns it there.
    let mut big_once = Rect::with_xywh(3_000, 3_000, 40_000, 40_000);
    let mut big_twice = big_once;
    big_once.keep_inside(container);
    big_twice.keep_inside(container);
    big_twice.keep_inside(container);
    assert_eq!(big_once, big_twice);
    assert_eq!(big_once.bottom_right(), Point::new(10_000, 10_000));
}
