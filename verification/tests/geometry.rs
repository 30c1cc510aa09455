use coav::catalog::{
    arrow_shape, build_shape, cross_shape, diamond_shape, house_shape, radial_shape,
    rectangle_shape, triangle_shape,
};
use coav::geometry::{boxes_overlap, copy_outline, BBox, UNITS_PER_PIXEL};
use coav::shape::{Shape, ShapeKind, KIND_COUNT};

const U: i64 = UNITS_PER_PIXEL;

fn boxed(x: i64, y: i64, w: i64, h: i64) -> BBox {
    BBox { x: x * U, y: y * U, width: w * U, height: h * U }
}

fn encloses(shape: &Shape) -> bool {
    let b = shape.bbox;
    shape.segmentation.chunks(2).all(|v| {
        v.len() == 2
            && b.x <= v[0]
            && v[0] <= b.x + b.width
            && b.y <= v[1]
            && v[1] <= b.y + b.height
    })
}

#[test]
fn one_pixel_is_a_million_units() {
    assert_eq!(UNITS_PER_PIXEL, 1_000_000);
}

#[test]
fn boxes_apart_do_not_overlap() {
    assert!(!boxes_overlap(&boxed(0, 0, 10, 10), &boxed(11, 0, 10, 10)));
    assert!(!boxes_overlap(&boxed(11, 0, 10, 10), &boxed(0, 0, 10, 10)));
    assert!(!boxes_overlap(&boxed(0, 0, 10, 10), &boxed(0, 11, 10, 10)));
    assert!(!boxes_overlap(&boxed(0, 11, 10, 10), &boxed(0, 0, 10, 10)));
}

#[test]
fn boxes_that_touch_overlap() {
    assert!(boxes_overlap(&boxed(0, 0, 10, 10), &boxed(10, 0, 10, 10)));
    assert!(boxes_overlap(&boxed(0, 0, 10, 10), &boxed(10, 10, 5, 5)));
    assert!(boxes_overlap(&boxed(0, 0, 10, 10), &boxed(2, 2, 3, 3)));
    assert!(boxes_overlap(&boxed(2, 2, 3, 3), &boxed(0, 0, 10, 10)));
}

#[test]
fn overlap_is_symmetric_on_samples() {
    let boxes = [boxed(0, 0, 10, 10), boxed(5, 5, 1, 1), boxed(20, 0, 3, 30), boxed(10, 10, 10, 10)];
    for a in &boxes {
        for b in &boxes {
            assert_eq!(boxes_overlap(a, b), boxes_overlap(b, a));
        }
    }
}

#[test]
fn overlap_of_extreme_boxes_does_not_wrap() {
    let far = BBox { x: i64::MAX, y: i64::MAX, width: i64::MAX, height: i64::MAX };
    let near = BBox { x: 0, y: 0, width: 1, height: 1 };
    assert!(!boxes_overlap(&near, &far));
    assert!(boxes_overlap(&far, &far));
}

#[test]
fn bbox_to_vec_lists_x_y_width_height() {
    let b = BBox { x: 1, y: 2, width: 3, height: 4 };
    assert_eq!(b.to_vec(), vec![1, 2, 3, 4]);
}

#[test]
fn copy_outline_copies() {
    let seg = vec![5, -6, 7, 8, 9];
    assert_eq!(copy_outline(&seg), seg);
    assert_eq!(copy_outline(&Vec::new()), Vec::<i64>::new());
}

#[test]
fn kinds_are_numbered_from_one_in_catalogue_order() {
    let names = [
        "rectangle", "triangle", "pentagon", "hexagon", "octagon", "diamond", "star", "cross",
        "arrow", "house",
    ];
    assert_eq!(KIND_COUNT, 10);
    for id in 1..=10 {
        let kind = ShapeKind::from_category(id).unwrap();
        assert_eq!(kind.category_id(), id);
        assert_eq!(kind.name(), names[(id - 1) as usize]);
    }
    assert_eq!(ShapeKind::from_category(0), None);
    assert_eq!(ShapeKind::from_category(11), None);
    assert_eq!(ShapeKind::from_category(-1), None);
}

#[test]
fn rectangle_is_its_box() {
    let s = rectangle_shape(1, 40, 50, 10, 20);
    assert_eq!(s.category_id, 1);
    assert_eq!(s.bbox, boxed(10, 20, 40, 50));
    assert_eq!(
        s.segmentation,
        vec![10 * U, 20 * U, 50 * U, 20 * U, 50 * U, 70 * U, 10 * U, 70 * U]
    );
    assert_eq!(s.area, 2000 * (U as i128) * (U as i128));
}

#[test]
fn triangle_has_half_the_square() {
    let s = triangle_shape(2, 41, 100, 200);
    let h = 20_500_000;
    assert_eq!(s.bbox, BBox { x: 100 * U - h, y: 200 * U - h, width: 41 * U, height: 41 * U });
    assert_eq!(
        s.segmentation,
        vec![100 * U, 200 * U - h, 100 * U - h, 200 * U + h, 100 * U + h, 200 * U + h]
    );
    assert_eq!(s.area, 41 * 41 * (U as i128) * (U as i128) / 2);
    assert!(encloses(&s));
}

#[test]
fn diamond_has_its_corners_on_the_axes() {
    let s = diamond_shape(6, 40, 100, 100);
    assert_eq!(s.bbox, boxed(80, 80, 40, 40));
    assert_eq!(
        s.segmentation,
        vec![100 * U, 80 * U, 120 * U, 100 * U, 100 * U, 120 * U, 80 * U, 100 * U]
    );
    assert_eq!(s.area, 800 * (U as i128) * (U as i128));
}

#[test]
fn cross_has_bars_a_third_thick() {
    let s = cross_shape(8, 60, 100, 100);
    assert_eq!(s.bbox, boxed(70, 70, 60, 60));
    let (c, h, t) = (100 * U, 30 * U, 10 * U);
    assert_eq!(
        s.segmentation,
        vec![
            c - t, c - h, c + t, c - h, c + t, c - t, c + h, c - t, c + h, c + t, c + t, c + t,
            c + t, c + h, c - t, c + h, c - t, c + t, c - h, c + t, c - h, c - t, c - t, c - t,
        ]
    );
    // two bars of 60 by 20 less the shared 20 by 20 square
    assert_eq!(s.area, 2000 * (U as i128) * (U as i128));
    assert!(encloses(&s));
}

#[test]
fn cross_thickness_rounds_down() {
    let s = cross_shape(8, 40, 100, 100);
    // a sixth of forty pixels
    assert_eq!(s.segmentation[0], 100 * U - 6_666_666);
    let thickness: i128 = 13_333_333;
    assert_eq!(s.area, 40 * (U as i128) * thickness * 2 - thickness * thickness);
    assert!(encloses(&s));
}

#[test]
fn arrow_has_a_head_four_tenths_wide() {
    let s = arrow_shape(9, 50, 100, 100);
    assert_eq!(s.bbox, boxed(75, 90, 50, 20));
    assert_eq!(
        s.segmentation,
        vec![
            75 * U, 95 * U, 105 * U, 95 * U, 105 * U, 90 * U, 125 * U, 100 * U, 105 * U, 110 * U,
            105 * U, 105 * U, 75 * U, 105 * U,
        ]
    );
    // seven tenths of 50 by 20
    assert_eq!(s.area, 700 * (U as i128) * (U as i128));
    assert!(encloses(&s));
}

#[test]
fn house_has_a_roof_over_half_height_walls() {
    let s = house_shape(10, 50, 100, 100);
    assert_eq!(s.bbox, boxed(75, 80, 50, 35));
    assert_eq!(
        s.segmentation,
        vec![
            75 * U, 100 * U, 75 * U, 115 * U, 125 * U, 115 * U, 125 * U, 100 * U, 100 * U, 80 * U,
        ]
    );
    assert_eq!(s.area, 1250 * (U as i128) * (U as i128));
    assert!(encloses(&s));
}

#[test]
fn pentagon_stands_on_the_circle() {
    let s = radial_shape(ShapeKind::Pentagon, 3, 30, 100, 100);
    assert_eq!(s.category_id, 3);
    assert_eq!(s.bbox, boxed(70, 70, 60, 60));
    assert_eq!(
        s.segmentation,
        vec![
            100_000_000, 70_000_000, 128_531_710, 90_729_490, 117_633_550, 124_270_510,
            82_366_450, 124_270_510, 71_468_290, 90_729_490,
        ]
    );
    // 1.72 times the square of the radius
    assert_eq!(s.area, 1548 * (U as i128) * (U as i128));
    assert!(encloses(&s));
}

#[test]
fn radial_vertices_follow_the_trigonometric_formulas() {
    let cases: [(ShapeKind, usize, f64, f64, f64); 4] = [
        (ShapeKind::Pentagon, 5, 0.2, -0.25, 1.72),
        (ShapeKind::Hexagon, 6, 1.0 / 6.0, 0.0, 2.6),
        (ShapeKind::Octagon, 8, 0.125, -0.0625, 2.83),
        (ShapeKind::Star, 10, 0.1, -0.25, 1.0),
    ];
    for (kind, count, step, start, factor) in cases {
        let r = 47u32;
        let s = radial_shape(kind, kind.category_id(), r, 300, 200);
        assert_eq!(s.segmentation.len(), 2 * count);
        assert_eq!(s.bbox, boxed(300 - 47, 200 - 47, 94, 94));
        for i in 0..count {
            let angle = std::f64::consts::TAU * (step * i as f64 + start);
            let radius = if kind == ShapeKind::Star && i % 2 == 1 { r as f64 / 2.0 } else { r as f64 };
            let x = 300.0 + radius * angle.cos();
            let y = 200.0 + radius * angle.sin();
            let got_x = s.segmentation[2 * i] as f64 / U as f64;
            let got_y = s.segmentation[2 * i + 1] as f64 / U as f64;
            assert!((got_x - x).abs() < 1e-4, "{:?} vertex {} x {} {}", kind, i, got_x, x);
            assert!((got_y - y).abs() < 1e-4, "{:?} vertex {} y {} {}", kind, i, got_y, y);
        }
        let area = s.area as f64 / (U as f64 * U as f64);
        assert!((area - factor * 47.0 * 47.0).abs() < 1e-6);
        assert!(encloses(&s));
    }
}

#[test]
fn hexagon_octagon_and_star_areas_are_exact() {
    let sq = (U as i128) * (U as i128);
    assert_eq!(radial_shape(ShapeKind::Hexagon, 4, 10, 50, 50).area, 260 * sq);
    assert_eq!(radial_shape(ShapeKind::Octagon, 5, 10, 50, 50).area, 283 * sq);
    assert_eq!(radial_shape(ShapeKind::Star, 7, 10, 50, 50).area, 100 * sq);
}

#[test]
fn build_shape_dispatches_on_the_kind() {
    assert_eq!(
        build_shape(ShapeKind::Rectangle, 1, 40, 50, 10, 20).segmentation,
        rectangle_shape(1, 40, 50, 10, 20).segmentation
    );
    assert_eq!(
        build_shape(ShapeKind::Triangle, 2, 40, 40, 100, 90).segmentation,
        triangle_shape(2, 40, 100, 90).segmentation
    );
    assert_eq!(
        build_shape(ShapeKind::Diamond, 6, 40, 40, 100, 90).segmentation,
        diamond_shape(6, 40, 100, 90).segmentation
    );
    assert_eq!(
        build_shape(ShapeKind::Cross, 8, 40, 40, 100, 90).segmentation,
        cross_shape(8, 40, 100, 90).segmentation
    );
    assert_eq!(
        build_shape(ShapeKind::Arrow, 9, 40, 40, 100, 90).segmentation,
        arrow_shape(9, 40, 100, 90).segmentation
    );
    assert_eq!(
        build_shape(ShapeKind::House, 10, 40, 40, 100, 90).segmentation,
        house_shape(10, 40, 100, 90).segmentation
    );
    assert_eq!(
        build_shape(ShapeKind::Star, 7, 30, 30, 100, 90).segmentation,
        radial_shape(ShapeKind::Star, 7, 30, 100, 90).segmentation
    );
}

#[test]
fn shapes_of_extreme_size_do_not_wrap() {
    let m = u32::MAX;
    let s = rectangle_shape(1, m, m, m, m);
    assert_eq!(s.bbox.x, m as i64 * U);
    assert_eq!(s.area, (m as i128 * U as i128) * (m as i128 * U as i128));
    assert!(encloses(&s));
    for kind in [ShapeKind::Triangle, ShapeKind::Cross, ShapeKind::Arrow, ShapeKind::House, ShapeKind::Octagon] {
        let s = build_shape(kind, kind.category_id(), m, m, m, m);
        assert!(encloses(&s));
        assert!(s.area > 0);
    }
}

#[test]
fn a_shape_of_size_zero_is_a_point() {
    let s = triangle_shape(2, 0, 7, 9);
    assert_eq!(s.bbox, boxed(7, 9, 0, 0));
    assert_eq!(s.segmentation, vec![7 * U, 9 * U, 7 * U, 9 * U, 7 * U, 9 * U]);
    assert_eq!(s.area, 0);
}

#[test]
fn duplicate_is_a_copy() {
    let s = house_shape(10, 50, 100, 100);
    let d = s.duplicate();
    assert_eq!(d.category_id, s.category_id);
    assert_eq!(d.bbox, s.bbox);
    assert_eq!(d.segmentation, s.segmentation);
    assert_eq!(d.area, s.area);
}
