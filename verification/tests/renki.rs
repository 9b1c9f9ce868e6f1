use renki_core::rat::Rat;
use renki_core::geom::{Geom, Point};
use renki_core::matrix::Matrix2d;
use renki_core::renki_image::RenkiImage;
use renki_core::scenario::Scenario;
use renki_core::RenkiCore;

fn pt(nx: i64, dx: i64, ny: i64, dy: i64) -> Point {
    Point::new(Rat::new(nx, dx), Rat::new(ny, dy))
}

fn rat_eq(a: Rat, b: Rat) -> bool {
    a.eq_val(b)
}

#[test]
fn algorithm_test() {
    let subject_polygon = vec![pt(1, 2, 1, 2), pt(3, 4, 5, 4), pt(5, 4, 1, 4)];
    let result = Geom::clip(&subject_polygon);
    println!("Result 1: {:?}", &result);
    let result_area = Geom::polygon_area(&result);
    println!("Result 1 area {:?}", result_area);

    let subject_polygon = vec![pt(3, 4, 5, 4), pt(5, 4, 5, 4), pt(5, 4, 1, 4)];
    let result = Geom::clip(&subject_polygon);
    println!("Result 2: {:?}", &result);
    let result_area = Geom::polygon_area(&result);
    println!("Result 2 area {:?}", result_area);
}

#[test]
fn clip_triangle_end_to_end() {
    // the triangle (0.5, 0.5), (0.75, 1.25), (1.25, 0.25) against the unit square
    let tri = vec![pt(1, 2, 1, 2), pt(3, 4, 5, 4), pt(5, 4, 1, 4)];
    let clipped = Geom::clip(&tri);
    assert!(clipped.len() >= 3);
    let area = Geom::polygon_area(&clipped);
    let full = Geom::polygon_area(&tri);
    assert!(rat_eq(full, Rat::new(5, 16)));
    assert!(Rat::zero().lt(area));
    assert!(area.lt(full));
}

#[test]
fn clip_keeps_inner_triangle() {
    let tri = vec![pt(1, 4, 1, 4), pt(3, 4, 1, 4), pt(1, 2, 3, 4)];
    let clipped = Geom::clip(&tri);
    assert_eq!(clipped.len(), 3);
    let area = Geom::polygon_area(&clipped);
    let full = Geom::polygon_area(&tri);
    assert!(rat_eq(area, full));
    // the vertex set is the same, up to a rotated start
    for p in &tri {
        assert!(clipped.iter().any(|q| rat_eq(q.x, p.x) && rat_eq(q.y, p.y)));
    }
}

#[test]
fn clip_drops_outside_triangle() {
    let tri = vec![pt(5, 4, 1, 4), pt(3, 2, 1, 2), pt(2, 1, 3, 4)];
    let clipped = Geom::clip(&tri);
    assert_eq!(clipped.len(), 0);
}

#[test]
fn area_of_degenerate_polygons_is_zero() {
    let empty: Vec<Point> = vec![];
    assert!(rat_eq(Geom::polygon_area(&empty), Rat::zero()));
    let one = vec![pt(1, 2, 1, 2)];
    assert!(rat_eq(Geom::polygon_area(&one), Rat::zero()));
    let two = vec![pt(1, 2, 1, 2), pt(3, 4, 1, 4)];
    assert!(rat_eq(Geom::polygon_area(&two), Rat::zero()));
}

#[test]
fn compose_applies_left_to_right() {
    let a = Matrix2d::translate(Rat::new(3, 1), Rat::new(-2, 1));
    let b = Matrix2d::scale(Rat::new(2, 1));
    let p = Point::new(Rat::new(1, 2), Rat::new(5, 1));
    let lhs = a.multiply(&b).apply(&p);
    let rhs = b.apply(&a.apply(&p));
    assert!(rat_eq(lhs.x, rhs.x));
    assert!(rat_eq(lhs.y, rhs.y));
    // first translate then scale: (0.5 + 3) * 2 == 7
    assert!(rat_eq(lhs.x, Rat::new(7, 1)));
    assert!(rat_eq(lhs.y, Rat::new(6, 1)));
}

#[test]
fn blend_is_not_commutative() {
    let a = RenkiImage {
        width: 1,
        height: 1,
        channels: vec![vec![Rat::new(100, 1)], vec![Rat::new(10, 1)], vec![Rat::new(1, 1)]],
        alpha: vec![Rat::new(1, 4)],
    };
    let b = RenkiImage {
        width: 1,
        height: 1,
        channels: vec![vec![Rat::new(200, 1)], vec![Rat::new(20, 1)], vec![Rat::new(2, 1)]],
        alpha: vec![Rat::new(1, 2)],
    };
    let ab = a.blend(&b);
    let ba = b.blend(&a);
    // A over B uses B's alpha: 100 * 1/2 + 200 * 1/2 == 150
    assert!(rat_eq(ab.channels[0][0], Rat::new(150, 1)));
    // B over A uses A's alpha: 200 * 3/4 + 100 * 1/4 == 175
    assert!(rat_eq(ba.channels[0][0], Rat::new(175, 1)));
    assert!(!rat_eq(ab.channels[0][0], ba.channels[0][0]));
    assert!(rat_eq(ab.alpha[0], Rat::one()));
}

fn flat_image(width: usize, height: usize, value: u8) -> RenkiImage {
    let bytes = vec![value; 3 * width * height];
    RenkiImage::from_rgb8(width, height, &bytes)
}

#[test]
fn interpolation_domain_and_nodes() {
    let images = vec![flat_image(1, 150, 120), flat_image(1, 150, 200)];
    let scenario = Scenario::generate_scenario(&images, 144, 144, 100);
    assert_eq!(scenario.images.len(), 2);
    let track = &scenario.images[0];
    assert_eq!(track.points.len(), 5);
    let t0 = track.points[0].time;
    let tlast = track.points[4].time;
    // before the first waypoint and at/after the last: no pose
    assert!(track.interpolate_points(t0.sub(Rat::new(1, 1000))).is_none());
    assert!(track.interpolate_points(tlast).is_none());
    assert!(track.interpolate_points(tlast.add(Rat::new(1, 1000))).is_none());
    // at an interior node the interpolant reproduces the waypoint exactly
    for i in 1..4 {
        let node = &track.points[i];
        let pose = track.interpolate_points(node.time).expect("pose at node");
        assert!(rat_eq(pose.anchor_x, node.anchor_x));
        assert!(rat_eq(pose.anchor_y, node.anchor_y));
        assert!(rat_eq(pose.offset_x, node.offset_x));
        assert!(rat_eq(pose.offset_y, node.offset_y));
        assert!(rat_eq(pose.scale, node.scale));
        assert!(rat_eq(pose.angle, node.angle));
        assert!(rat_eq(pose.alpha, node.alpha));
    }
    // at the first node too (it is inside the half-open window)
    let pose = track.interpolate_points(t0).expect("pose at start");
    assert!(rat_eq(pose.alpha, track.points[0].alpha));
}

#[test]
fn test_image_transform() {
    let image = flat_image(64, 36, 90);
    let matrix = Matrix2d::translate(Rat::new(128, 1), Rat::new(72, 1))
        .multiply(&Matrix2d::scale(Rat::new(5, 4)))
        .multiply(&Matrix2d::rotation(Rat::new(1, 8)))
        .multiply(&Matrix2d::translate(Rat::new(-100, 1), Rat::new(-50, 1)));
    let image = image.transform(&matrix, 256, 144, Rat::one());
    assert_eq!(image.width, 256);
    assert_eq!(image.height, 144);
    assert_eq!(image.channels.len(), 3);
    for c in 0..3 {
        assert_eq!(image.channels[c].len(), 256 * 144);
    }
    assert_eq!(image.alpha.len(), 256 * 144);
    // the mapped image lands inside the canvas, so coverage accumulated
    assert!(image.alpha.iter().any(|a| Rat::zero().lt(*a)));
}

#[test]
fn test_scenario_render() {
    let images = vec![flat_image(1, 150, 120), flat_image(1, 150, 200)];
    let scenario = Scenario::generate_scenario(&images, 144, 144, 100);
    let frames = scenario.render(&images);
    assert_eq!(frames.len(), 100);
    for frame in &frames {
        assert_eq!(frame.width, 144);
        assert_eq!(frame.height, 144);
        assert_eq!(frame.channels.len(), 3);
        for c in 0..3 {
            assert_eq!(frame.channels[c].len(), frame.alpha.len());
            assert_eq!(frame.channels[c].len(), 144 * 144);
        }
    }
    // the second track starts strictly after time 0, and frame 0 carries
    // no contribution of it beyond the first track's (invisible) pose
    let t1 = &scenario.images[1];
    assert!(Rat::zero().lt(t1.points[0].time));
}

#[test]
fn encode_clamps_out_of_range_samples() {
    let img = RenkiImage {
        width: 1,
        height: 1,
        channels: vec![vec![Rat::new(-10, 1)], vec![Rat::new(300, 1)], vec![Rat::new(501, 2)]],
        alpha: vec![Rat::one()],
    };
    let bytes = img.to_rgb8();
    assert_eq!(bytes, vec![0, 255, 250]);
}

#[test]
fn render_images_produces_all_frames() {
    let images = vec![flat_image(1, 150, 50)];
    let frames = RenkiCore::render_images(&images, 1);
    assert_eq!(frames.len(), 1);
    assert_eq!(frames[0].width, 1080);
    assert_eq!(frames[0].height, 1920);
}
