use coav::augment::{calculate_combined_bbox, generate_multi_polygon_segmentation, secondary_square};
use coav::canvas::{to_extent, to_pixel, to_pixels, Canvas, Color};
use coav::catalog::{
    arrow_shape, cross_shape, diamond_shape, house_shape, radial_shape, rectangle_shape,
    triangle_shape,
};
use coav::geometry::{boxes_overlap, BBox, UNITS_PER_PIXEL};
use coav::placement::{generate_candidate, overlaps_any, place_shapes};
use coav::rasterizer::{
    draw_arrow, draw_cross, draw_diamond, draw_hexagon, draw_house, draw_octagon, draw_pentagon,
    draw_rectangle, draw_shape, draw_star, draw_triangle, hsl_to_rgb, shape_color, ColorPolicy,
};
use coav::sampler::Sampler;
use coav::shape::{Shape, ShapeKind};
use image::{Rgb, RgbImage};
use imageproc::drawing::draw_polygon_mut;
use imageproc::point::Point;

const U: i64 = UNITS_PER_PIXEL;
const GRAY: Color = Color { r: 128, g: 128, b: 128 };
const WHITE: Color = Color { r: 255, g: 255, b: 255 };
const RED: Color = Color { r: 200, g: 10, b: 20 };

fn count(canvas: &Canvas, color: Color) -> usize {
    let mut n = 0;
    for y in 0..canvas.height() {
        for x in 0..canvas.width() {
            if canvas.pixel(x, y) == Some(color) {
                n += 1;
            }
        }
    }
    n
}

#[test]
fn a_blank_canvas_is_white() {
    let canvas = Canvas::blank(4, 3);
    assert_eq!(canvas.width(), 4);
    assert_eq!(canvas.height(), 3);
    assert_eq!(count(&canvas, WHITE), 12);
    assert_eq!(canvas.pixel(4, 0), None);
    assert_eq!(canvas.pixel(0, 3), None);
    assert_eq!(canvas.into_bytes(), vec![255u8; 36]);
    assert_eq!(Canvas::blank(0, 7).into_bytes(), Vec::<u8>::new());
}

#[test]
fn coordinates_fall_on_the_pixel_they_are_in() {
    assert_eq!(to_pixel(0), 0);
    assert_eq!(to_pixel(999_999), 0);
    assert_eq!(to_pixel(1_000_000), 1);
    assert_eq!(to_pixel(12_500_000), 12);
    assert_eq!(to_pixel(-1), 0);
    assert_eq!(to_pixel(-1_000_000), -1);
    assert_eq!(to_pixel(-1_999_999), -1);
    assert_eq!(to_pixel(i64::MAX), 1_000_000_000);
    assert_eq!(to_pixel(i64::MIN), -1_000_000_000);
    assert_eq!(to_extent(-5), 0);
    assert_eq!(to_extent(0), 0);
    assert_eq!(to_extent(2_999_999), 2);
    assert_eq!(to_extent(i64::MAX), 1_000_000_000);
    assert_eq!(to_pixels(&vec![1_500_000, 2_000_000, -3_000_000, 4_999_999, 77]), vec![1, 2, -3, 4]);
    assert_eq!(to_pixels(&vec![5]), Vec::<i32>::new());
}

#[test]
fn a_rectangle_paints_exactly_its_pixels() {
    let mut canvas = Canvas::blank(10, 10);
    let shape = rectangle_shape(1, 3, 2, 4, 5);
    draw_rectangle(&mut canvas, &shape, RED);
    for y in 0..10 {
        for x in 0..10 {
            let inside = (4..7).contains(&x) && (5..7).contains(&y);
            assert_eq!(canvas.pixel(x, y), Some(if inside { RED } else { WHITE }), "{} {}", x, y);
        }
    }
}

#[test]
fn a_rectangle_is_clipped_to_the_canvas() {
    let mut canvas = Canvas::blank(10, 10);
    let shape = Shape {
        category_id: 1,
        bbox: BBox { x: 8 * U, y: -2 * U, width: 5 * U, height: 4 * U },
        segmentation: Vec::new(),
        area: 0,
    };
    draw_rectangle(&mut canvas, &shape, GRAY);
    assert_eq!(count(&canvas, GRAY), 4);
    assert_eq!(canvas.pixel(8, 0), Some(GRAY));
    assert_eq!(canvas.pixel(9, 1), Some(GRAY));
    assert_eq!(canvas.pixel(9, 2), Some(WHITE));
    assert_eq!(canvas.pixel(7, 0), Some(WHITE));
}

#[test]
fn a_rectangle_covering_no_pixel_paints_nothing() {
    for (w, h) in [(0i64, 5 * U), (5 * U, 0), (U - 1, 5 * U), (-3 * U, 4 * U)] {
        let mut canvas = Canvas::blank(10, 10);
        let shape = Shape {
            category_id: 1,
            bbox: BBox { x: 2 * U, y: 2 * U, width: w, height: h },
            segmentation: Vec::new(),
            area: 0,
        };
        draw_rectangle(&mut canvas, &shape, GRAY);
        assert_eq!(count(&canvas, WHITE), 100);
    }
    let mut empty = Canvas::blank(0, 0);
    draw_rectangle(&mut empty, &rectangle_shape(1, 3, 3, 0, 0), GRAY);
    assert_eq!(empty.into_bytes(), Vec::<u8>::new());
}

#[test]
fn a_triangle_is_filled() {
    let mut canvas = Canvas::blank(100, 100);
    let shape = triangle_shape(2, 40, 50, 50);
    draw_triangle(&mut canvas, &shape, GRAY);
    assert_eq!(canvas.pixel(50, 55), Some(GRAY));
    assert_eq!(canvas.pixel(50, 31), Some(GRAY));
    assert_eq!(canvas.pixel(31, 69), Some(GRAY));
    assert_eq!(canvas.pixel(69, 69), Some(GRAY));
    assert_eq!(canvas.pixel(31, 31), Some(WHITE));
    assert_eq!(canvas.pixel(5, 5), Some(WHITE));
    assert_eq!(canvas.pixel(50, 75), Some(WHITE));
    let painted = count(&canvas, GRAY);
    assert!(painted > 700 && painted < 900, "{}", painted);
}

#[test]
fn every_outline_is_painted_as_the_polygon_through_its_pixels() {
    let shapes: Vec<(Shape, fn(&mut Canvas, &Shape, Color))> = vec![
        (triangle_shape(2, 41, 60, 60), draw_triangle),
        (radial_shape(ShapeKind::Pentagon, 3, 33, 60, 60), draw_pentagon),
        (radial_shape(ShapeKind::Hexagon, 4, 33, 60, 60), draw_hexagon),
        (radial_shape(ShapeKind::Octagon, 5, 33, 60, 60), draw_octagon),
        (diamond_shape(6, 41, 60, 60), draw_diamond),
        (radial_shape(ShapeKind::Star, 7, 33, 60, 60), draw_star),
        (cross_shape(8, 41, 60, 60), draw_cross),
        (arrow_shape(9, 41, 60, 60), draw_arrow),
        (house_shape(10, 41, 60, 60), draw_house),
    ];
    for (shape, draw) in shapes {
        let mut canvas = Canvas::blank(120, 110);
        draw(&mut canvas, &shape, RED);
        let mut image = RgbImage::from_pixel(120, 110, Rgb([255, 255, 255]));
        let points: Vec<Point<i32>> = shape
            .segmentation
            .chunks(2)
            .map(|v| Point::new((v[0] / U) as i32, (v[1] / U) as i32))
            .collect();
        draw_polygon_mut(&mut image, &points, Rgb([200, 10, 20]));
        assert!(count(&canvas, RED) > 100);
        assert_eq!(canvas.into_bytes(), image.into_raw(), "category {}", shape.category_id);
    }
}

#[test]
fn an_outline_that_cannot_be_filled_paints_nothing() {
    let outlines: Vec<Vec<i64>> = vec![
        Vec::new(),
        vec![5 * U],
        vec![5 * U, 5 * U],
        // first and last vertex on the same pixel
        vec![5 * U, 5 * U, 8 * U, 8 * U, 5 * U + 1, 5 * U + 2],
        triangle_shape(2, 0, 5, 5).segmentation,
    ];
    for outline in outlines {
        let mut canvas = Canvas::blank(10, 10);
        canvas.paint_outline(&outline, GRAY);
        assert_eq!(count(&canvas, WHITE), 100);
    }
    let mut empty = Canvas::blank(0, 5);
    draw_triangle(&mut empty, &triangle_shape(2, 4, 2, 2), GRAY);
    assert_eq!(empty.into_bytes(), Vec::<u8>::new());
}

#[test]
fn a_polygon_far_off_the_canvas_paints_nothing() {
    let mut canvas = Canvas::blank(10, 10);
    let far = i64::MAX / 2;
    canvas.paint_outline(&vec![far, far, far + 5 * U, far, far, far + 5 * U], GRAY);
    assert_eq!(count(&canvas, WHITE), 100);
}

#[test]
fn draw_shape_paints_by_category() {
    let mut by_kind = Canvas::blank(100, 100);
    let mut by_shape = Canvas::blank(100, 100);
    let rect = rectangle_shape(1, 20, 10, 5, 5);
    draw_rectangle(&mut by_kind, &rect, GRAY);
    draw_shape(&mut by_shape, &rect, GRAY);
    let star = radial_shape(ShapeKind::Star, 7, 20, 60, 60);
    draw_star(&mut by_kind, &star, RED);
    draw_shape(&mut by_shape, &star, RED);
    assert_eq!(by_shape.pixel(6, 6), Some(GRAY));
    assert_eq!(by_shape.pixel(60, 60), Some(RED));
    assert_eq!(by_kind.into_bytes(), by_shape.into_bytes());

    let mut untouched = Canvas::blank(100, 100);
    let mut stray = triangle_shape(2, 40, 50, 50);
    stray.category_id = 11;
    draw_shape(&mut untouched, &stray, GRAY);
    stray.category_id = 0;
    draw_shape(&mut untouched, &stray, GRAY);
    assert_eq!(count(&untouched, WHITE), 10_000);
}

#[test]
fn hues_convert_to_their_colours() {
    assert_eq!(hsl_to_rgb(0, 700, 600), Color { r: 224, g: 81, b: 81 });
    assert_eq!(hsl_to_rgb(60_000, 700, 600), Color { r: 224, g: 224, b: 81 });
    assert_eq!(hsl_to_rgb(90_000, 700, 600), Color { r: 153, g: 224, b: 81 });
    assert_eq!(hsl_to_rgb(120_000, 700, 600), Color { r: 81, g: 224, b: 81 });
    assert_eq!(hsl_to_rgb(180_000, 700, 600), Color { r: 81, g: 224, b: 224 });
    assert_eq!(hsl_to_rgb(240_000, 700, 600), Color { r: 81, g: 81, b: 224 });
    assert_eq!(hsl_to_rgb(300_000, 700, 600), Color { r: 224, g: 81, b: 224 });
    assert_eq!(hsl_to_rgb(0, 1000, 500), Color { r: 255, g: 0, b: 0 });
    assert_eq!(hsl_to_rgb(123_456, 0, 500), Color { r: 127, g: 127, b: 127 });
    assert_eq!(hsl_to_rgb(77_000, 900, 0), Color { r: 0, g: 0, b: 0 });
    assert_eq!(hsl_to_rgb(77_000, 900, 1000), Color { r: 255, g: 255, b: 255 });
    assert_eq!(hsl_to_rgb(u32::MAX, u32::MAX, u32::MAX).r, 0);
}

#[test]
fn hues_agree_with_the_floating_point_formula() {
    fn reference(h: f64, s: f64, l: f64) -> [f64; 3] {
        let c = (1.0 - (2.0 * l - 1.0).abs()) * s;
        let x = c * (1.0 - ((h / 60.0) % 2.0 - 1.0).abs());
        let m = l - c / 2.0;
        let (r, g, b) = if h < 60.0 {
            (c, x, 0.0)
        } else if h < 120.0 {
            (x, c, 0.0)
        } else if h < 180.0 {
            (0.0, c, x)
        } else if h < 240.0 {
            (0.0, x, c)
        } else if h < 300.0 {
            (x, 0.0, c)
        } else {
            (c, 0.0, x)
        };
        [(r + m) * 255.0, (g + m) * 255.0, (b + m) * 255.0]
    }
    for h in (0..360_000).step_by(1_237) {
        for (s, l) in [(700, 600), (1000, 500), (333, 250), (10, 990)] {
            let got = hsl_to_rgb(h, s, l);
            let want = reference(h as f64 / 1000.0, s as f64 / 1000.0, l as f64 / 1000.0);
            for (g, w) in [(got.r, want[0]), (got.g, want[1]), (got.b, want[2])] {
                assert!((g as f64 - w).abs() < 1.000001 && g as f64 <= w + 1e-6, "{} {} {}: {} {}", h, s, l, g, w);
            }
        }
    }
}

#[test]
fn the_policy_picks_the_colour() {
    assert_eq!(shape_color(ColorPolicy::Gray, 3, 4), GRAY);
    assert_eq!(shape_color(ColorPolicy::PerCategory, 1, 4), Color { r: 224, g: 81, b: 81 });
    assert_eq!(shape_color(ColorPolicy::PerCategory, 2, 4), Color { r: 153, g: 224, b: 81 });
    assert_eq!(shape_color(ColorPolicy::PerCategory, 3, 3), Color { r: 81, g: 81, b: 224 });
    assert_eq!(shape_color(ColorPolicy::PerCategory, 0, 4), GRAY);
    assert_eq!(shape_color(ColorPolicy::PerCategory, 5, 4), GRAY);
    assert_eq!(shape_color(ColorPolicy::PerCategory, 1, 0), GRAY);
    let mut seen = Vec::new();
    for id in 1..=10 {
        let c = shape_color(ColorPolicy::PerCategory, id, 10);
        assert!(!seen.contains(&c));
        seen.push(c);
    }
}

#[test]
fn overlaps_any_looks_at_every_shape() {
    let shapes = vec![rectangle_shape(1, 10, 10, 0, 0), rectangle_shape(1, 10, 10, 50, 50)];
    assert!(overlaps_any(&rectangle_shape(1, 5, 5, 55, 55).bbox, &shapes));
    assert!(overlaps_any(&rectangle_shape(1, 5, 5, 10, 10).bbox, &shapes));
    assert!(!overlaps_any(&rectangle_shape(1, 5, 5, 20, 20).bbox, &shapes));
    assert!(!overlaps_any(&rectangle_shape(1, 5, 5, 55, 55).bbox, &[]));
}

#[test]
fn candidates_are_of_the_kind_of_their_category() {
    let mut rng = Sampler::seeded(21);
    for id in 1..=10 {
        let shape = generate_candidate(&mut rng, 400, 400, id, 80).unwrap();
        assert_eq!(shape.category_id, id);
        let vertices = [4, 3, 5, 6, 8, 4, 10, 12, 7, 5][(id - 1) as usize];
        assert_eq!(shape.segmentation.len(), 2 * vertices);
    }
    assert!(generate_candidate(&mut rng, 400, 400, 0, 80).is_none());
    assert!(generate_candidate(&mut rng, 400, 400, 11, 80).is_none());
}

#[test]
fn placed_shapes_do_not_overlap_when_overlap_is_not_allowed() {
    for seed in 0..20 {
        let mut rng = Sampler::seeded(seed);
        let mut canvas = Canvas::blank(400, 400);
        let placement = place_shapes(&mut rng, &mut canvas, 10, 12, 80, false, ColorPolicy::Gray);
        let shapes = &placement.shapes;
        assert!(shapes.len() <= 12);
        assert!(shapes.len() as u64 <= placement.attempts && placement.attempts <= 1200);
        assert!(shapes.len() == 12 || placement.attempts == 1200);
        for i in 0..shapes.len() {
            assert!((1..=10).contains(&shapes[i].category_id));
            for j in i + 1..shapes.len() {
                assert!(!boxes_overlap(&shapes[i].bbox, &shapes[j].bbox));
            }
        }
    }
}

#[test]
fn a_crowded_canvas_gets_fewer_shapes_than_requested() {
    let mut rng = Sampler::seeded(5);
    let mut canvas = Canvas::blank(120, 120);
    let placement = place_shapes(&mut rng, &mut canvas, 2, 30, 60, false, ColorPolicy::Gray);
    assert!(!placement.shapes.is_empty());
    assert!(placement.shapes.len() < 30);
    assert_eq!(placement.attempts, 3000);
}

#[test]
fn with_overlap_allowed_and_room_every_request_is_met() {
    for seed in 0..10 {
        let mut rng = Sampler::seeded(seed);
        let mut canvas = Canvas::blank(400, 300);
        let placement = place_shapes(&mut rng, &mut canvas, 10, 40, 80, true, ColorPolicy::Gray);
        assert_eq!(placement.shapes.len(), 40);
        assert_eq!(placement.attempts, 40);
    }
}

#[test]
fn nothing_is_placed_without_classes_or_requests() {
    let mut rng = Sampler::seeded(1);
    let mut canvas = Canvas::blank(400, 400);
    let none = place_shapes(&mut rng, &mut canvas, 0, 5, 80, true, ColorPolicy::Gray);
    assert!(none.shapes.is_empty());
    assert_eq!(none.attempts, 500);
    let zero = place_shapes(&mut rng, &mut canvas, 4, 0, 80, true, ColorPolicy::Gray);
    assert!(zero.shapes.is_empty());
    assert_eq!(zero.attempts, 0);
    assert_eq!(canvas.into_bytes(), vec![255u8; 3 * 400 * 400]);
}

#[test]
fn the_canvas_shows_the_placed_shapes_in_order() {
    for policy in [ColorPolicy::Gray, ColorPolicy::PerCategory] {
        let mut rng = Sampler::seeded(77);
        let mut canvas = Canvas::blank(300, 300);
        let placement = place_shapes(&mut rng, &mut canvas, 10, 15, 80, true, policy);
        let mut replay = Canvas::blank(300, 300);
        for shape in &placement.shapes {
            draw_shape(&mut replay, shape, shape_color(policy, shape.category_id, 10));
        }
        assert!(count(&canvas, WHITE) < 90_000);
        assert_eq!(canvas.into_bytes(), replay.into_bytes());
    }
}

#[test]
fn categories_beyond_the_catalogue_waste_their_attempts() {
    let mut rng = Sampler::seeded(3);
    let mut canvas = Canvas::blank(400, 400);
    let placement = place_shapes(&mut rng, &mut canvas, 1000, 5, 80, true, ColorPolicy::Gray);
    assert!(placement.attempts > placement.shapes.len() as u64);
    for shape in &placement.shapes {
        assert!((1..=10).contains(&shape.category_id));
    }
}

#[test]
fn the_combined_box_spans_every_vertex() {
    let polygons = vec![vec![1, 2, 5, 8], vec![-3, 4, 2, 10], Vec::new()];
    assert_eq!(calculate_combined_bbox(&polygons), vec![-3, 2, 8, 8]);
    assert_eq!(calculate_combined_bbox(&[vec![7, 9]]), vec![7, 9, 0, 0]);
    assert_eq!(calculate_combined_bbox(&[vec![1, 2, 99]]), vec![1, 2, 0, 0]);
    let limit = 0x3fff_ffff_ffff_ffff;
    assert_eq!(
        calculate_combined_bbox(&[vec![-limit, limit], vec![limit, -limit]]),
        vec![-limit, -limit, 2 * limit, 2 * limit]
    );
}

#[test]
fn the_combined_box_of_no_vertex_is_all_zeros() {
    assert_eq!(calculate_combined_bbox(&[]), vec![0, 0, 0, 0]);
    assert_eq!(calculate_combined_bbox(&[Vec::new(), vec![5]]), vec![0, 0, 0, 0]);
}

#[test]
fn a_secondary_square_has_four_corners() {
    assert_eq!(secondary_square(3, 4, 10), vec![3, 4, 13, 4, 13, 14, 3, 14]);
    assert_eq!(secondary_square(0, 0, 0), vec![0; 8]);
}

#[test]
fn secondary_polygons_stay_near_the_shape_and_clear_of_the_others() {
    let main = rectangle_shape(1, 50, 40, 100, 120);
    let existing = vec![rectangle_shape(1, 60, 60, 20, 100), rectangle_shape(1, 40, 40, 300, 300)];
    let mut counts = [0usize; 5];
    for seed in 0..200 {
        let mut rng = Sampler::seeded(seed);
        let polygons = generate_multi_polygon_segmentation(&main, &mut rng, 400, 400, &existing);
        assert!((1..=4).contains(&polygons.len()));
        counts[polygons.len()] += 1;
        assert_eq!(polygons[0], main.segmentation);
        for poly in &polygons[1..] {
            let (x, y) = (poly[0], poly[1]);
            let side = 10 * U;
            assert_eq!(poly, &vec![x, y, x + side, y, x + side, y + side, x, y + side]);
            assert!(x >= 90 * U && x < 160 * U);
            assert!(y >= 110 * U && y < 170 * U);
            let b = BBox { x, y, width: side, height: side };
            assert!(!overlaps_any(&b, &existing));
        }
    }
    assert!(counts[2] > 0 && counts[3] > 0 && counts[4] > 0);
}

#[test]
fn secondary_polygons_stay_on_the_canvas_and_shrink_with_the_shape() {
    let main = Shape {
        category_id: 1,
        bbox: BBox { x: 392 * U, y: 0, width: 8 * U, height: 6 * U },
        segmentation: vec![392 * U, 0, 400 * U, 0, 400 * U, 6 * U, 392 * U, 6 * U],
        area: 0,
    };
    for seed in 0..100 {
        let mut rng = Sampler::seeded(seed);
        let polygons = generate_multi_polygon_segmentation(&main, &mut rng, 400, 400, &[]);
        assert!(polygons.len() >= 2);
        for poly in &polygons[1..] {
            assert_eq!(poly[2] - poly[0], 6 * U);
            assert!(poly[0] >= 382 * U && poly[2] <= 400 * U);
            assert!(poly[1] >= 0 && poly[5] <= 16 * U + 6 * U);
        }
    }
}

#[test]
fn a_shape_with_no_free_neighbourhood_gets_no_secondary_polygon() {
    let main = rectangle_shape(1, 50, 40, 100, 120);
    let cover = vec![rectangle_shape(1, 400, 400, 0, 0)];
    let mut rng = Sampler::seeded(9);
    let polygons = generate_multi_polygon_segmentation(&main, &mut rng, 400, 400, &cover);
    assert_eq!(polygons, vec![main.segmentation.clone()]);
    // a canvas as small as the secondary square leaves no origin to draw
    let small = rectangle_shape(1, 10, 10, 0, 0);
    let polygons = generate_multi_polygon_segmentation(&small, &mut rng, 10, 10, &[]);
    assert_eq!(polygons.len(), 1);
}

#[test]
fn filled_rectangles_follow_the_pixel_rule() {
    let mut rng = Sampler::seeded(31);
    for _ in 0..300 {
        let (width, height) = (rng.between(1, 12), rng.between(1, 9));
        let bbox = BBox {
            x: rng.below(-8 * U, 16 * U),
            y: rng.below(-8 * U, 16 * U),
            width: rng.below(-2 * U, 20 * U),
            height: rng.below(-2 * U, 20 * U),
        };
        let mut canvas = Canvas::blank(width, height);
        canvas.paint_rectangle(&bbox, RED);
        let (left, top) = (to_pixel(bbox.x) as i64, to_pixel(bbox.y) as i64);
        let (w, h) = (to_extent(bbox.width) as i64, to_extent(bbox.height) as i64);
        for y in 0..height {
            for x in 0..width {
                let (px, py) = (x as i64, y as i64);
                let inside = w >= 1 && h >= 1 && left <= px && px < left + w && top <= py && py < top + h;
                assert_eq!(canvas.pixel(x, y), Some(if inside { RED } else { WHITE }));
            }
        }
    }
}

#[test]
fn a_rectangle_reaching_far_beyond_the_canvas_is_clipped() {
    let mut canvas = Canvas::blank(6, 5);
    let far = 900_000_000 * U;
    let bbox = BBox { x: -far, y: 2 * U, width: 2 * far, height: i64::MAX };
    canvas.paint_rectangle(&bbox, GRAY);
    for y in 0..5 {
        for x in 0..6 {
            assert_eq!(canvas.pixel(x, y), Some(if y >= 2 { GRAY } else { WHITE }));
        }
    }
}

#[test]
fn a_polygon_reaching_far_beyond_the_canvas_is_clipped() {
    let mut canvas = Canvas::blank(20, 20);
    let far = 1_000_000 * U;
    canvas.paint_outline(&vec![-far, -far, far, -far, far, far, -far, far], GRAY);
    assert_eq!(count(&canvas, GRAY), 400);
    let mut half = Canvas::blank(20, 20);
    half.paint_outline(&vec![10 * U, -far, far, -far, far, far, 10 * U, far], GRAY);
    for y in 0..20 {
        for x in 0..20 {
            assert_eq!(half.pixel(x, y), Some(if x >= 10 { GRAY } else { WHITE }));
        }
    }
}

#[test]
fn outlines_are_painted_like_polygons_of_their_pixels_wherever_they_lie() {
    let mut rng = Sampler::seeded(41);
    for _ in 0..200 {
        let vertices = rng.between(2, 7) as usize;
        let outline: Vec<i64> = (0..2 * vertices).map(|_| rng.below(-20 * U, 60 * U)).collect();
        let points = to_pixels(&outline);
        let mut canvas = Canvas::blank(40, 30);
        canvas.paint_outline(&outline, RED);
        let mut image = RgbImage::from_pixel(40, 30, Rgb([255, 255, 255]));
        let first = (points[0], points[1]);
        let last = (points[points.len() - 2], points[points.len() - 1]);
        if first != last {
            let poly: Vec<Point<i32>> = points.chunks(2).map(|p| Point::new(p[0], p[1])).collect();
            draw_polygon_mut(&mut image, &poly, Rgb([200, 10, 20]));
        }
        assert_eq!(canvas.into_bytes(), image.into_raw());
    }
}

#[test]
fn a_free_neighbourhood_gets_every_square_that_is_drawn() {
    let main = rectangle_shape(1, 50, 40, 100, 120);
    let mut counts = [0usize; 4];
    for seed in 0..300 {
        let mut rng = Sampler::seeded(seed);
        rng.below(0, 100);
        let drawn = Sampler { seed: rng.seed, position: rng.position }.between(1, 3) as usize;
        let polygons = generate_multi_polygon_segmentation(&main, &mut rng, 400, 400, &[]);
        assert_eq!(polygons.len(), 1 + drawn);
        counts[drawn] += 1;
    }
    assert!(counts[1] > 50 && counts[2] > 50 && counts[3] > 50);
}

#[test]
fn secondary_squares_are_searched_as_the_sampler_draws() {
    let main = rectangle_shape(1, 50, 40, 100, 120);
    let existing = vec![
        rectangle_shape(1, 60, 60, 20, 100),
        rectangle_shape(1, 30, 30, 140, 150),
        rectangle_shape(1, 40, 40, 300, 300),
    ];
    let side = 10 * U;
    let mut given_up = 0;
    for seed in 0..300 {
        let mut rng = Sampler::seeded(seed);
        let mut mirror = Sampler::seeded(seed);
        let polygons = generate_multi_polygon_segmentation(&main, &mut rng, 400, 400, &existing);
        let mut expected = vec![main.segmentation.clone()];
        let searches = mirror.between(1, 3);
        for _ in 0..searches {
            let mut found = false;
            for _ in 0..10 {
                let x = mirror.below(90 * U, 160 * U);
                let y = mirror.below(110 * U, 170 * U);
                let b = BBox { x, y, width: side, height: side };
                if !overlaps_any(&b, &existing) {
                    expected.push(secondary_square(x, y, side));
                    found = true;
                    break;
                }
            }
            if !found {
                given_up += 1;
            }
        }
        assert_eq!(polygons, expected);
        assert_eq!(rng, mirror);
    }
    assert!(given_up < 100);
}

#[test]
fn a_search_without_origins_draws_nothing() {
    let small = rectangle_shape(1, 10, 10, 0, 0);
    let mut rng = Sampler::seeded(4);
    let mut mirror = Sampler::seeded(4);
    let polygons = generate_multi_polygon_segmentation(&small, &mut rng, 10, 10, &[]);
    mirror.between(1, 3);
    assert_eq!(polygons, vec![small.segmentation.clone()]);
    assert_eq!(rng, mirror);
}

#[test]
fn a_canvas_with_room_always_gets_a_shape() {
    for seed in 0..50 {
        for allow_overlap in [false, true] {
            let mut rng = Sampler::seeded(seed);
            let mut canvas = Canvas::blank(200, 200);
            let placement = place_shapes(&mut rng, &mut canvas, 10, 1, 80, allow_overlap, ColorPolicy::Gray);
            assert_eq!(placement.shapes.len(), 1);
            assert_eq!(placement.attempts, 1);
            let mut crowded = Canvas::blank(170, 170);
            let placement = place_shapes(&mut rng, &mut crowded, 10, 20, 80, allow_overlap, ColorPolicy::Gray);
            assert!(!placement.shapes.is_empty());
        }
    }
}

#[test]
fn shapes_are_placed_as_the_sampler_draws() {
    for seed in 0..8 {
        for (allow_overlap, classes, requested) in [(false, 10, 12), (true, 3, 5), (false, 14, 6), (false, 2, 14)] {
            let mut rng = Sampler::seeded(seed);
            let mut mirror = Sampler::seeded(seed);
            let mut canvas = Canvas::blank(300, 260);
            let placement = place_shapes(&mut rng, &mut canvas, classes, requested, 80, allow_overlap, ColorPolicy::Gray);
            let mut expected: Vec<Shape> = Vec::new();
            let mut attempts = 0u64;
            while expected.len() < requested as usize && attempts < 100 * requested as u64 {
                attempts += 1;
                let choice = mirror.between(1, classes);
                if choice > 10 {
                    continue;
                }
                if let Some(shape) = generate_candidate(&mut mirror, 300, 260, choice as i32, 80) {
                    // a candidate is dropped only when it overlaps an accepted shape
                    if allow_overlap || !overlaps_any(&shape.bbox, &expected) {
                        expected.push(shape);
                    }
                }
            }
            assert_eq!(placement.attempts, attempts);
            assert_eq!(placement.shapes.len(), expected.len());
            for (got, want) in placement.shapes.iter().zip(&expected) {
                assert_eq!(got.category_id, want.category_id);
                assert_eq!(got.bbox, want.bbox);
                assert_eq!(got.segmentation, want.segmentation);
                assert_eq!(got.area, want.area);
            }
            assert_eq!(rng, mirror);
        }
    }
}
