use coav::generators::{
    generate_arrow_shape, generate_cross_shape, generate_diamond_shape, generate_hexagon_shape,
    generate_house_shape, generate_octagon_shape, generate_pentagon_shape,
    generate_rectangle_shape, generate_star_shape, generate_triangle_shape, sample_shape,
};
use coav::geometry::UNITS_PER_PIXEL;
use coav::sampler::Sampler;
use coav::shape::{Shape, ShapeKind};
use coav::text::{decimal_string, signed_decimal_string};
use rand::{Rng, SeedableRng};

const U: i64 = UNITS_PER_PIXEL;

fn generator(kind: ShapeKind) -> fn(&mut Sampler, u32, u32, i32, u32) -> Option<Shape> {
    match kind {
        ShapeKind::Rectangle => generate_rectangle_shape,
        ShapeKind::Triangle => generate_triangle_shape,
        ShapeKind::Pentagon => generate_pentagon_shape,
        ShapeKind::Hexagon => generate_hexagon_shape,
        ShapeKind::Octagon => generate_octagon_shape,
        ShapeKind::Diamond => generate_diamond_shape,
        ShapeKind::Star => generate_star_shape,
        ShapeKind::Cross => generate_cross_shape,
        ShapeKind::Arrow => generate_arrow_shape,
        ShapeKind::House => generate_house_shape,
    }
}

fn all_kinds() -> Vec<ShapeKind> {
    (1..=10).map(|id| ShapeKind::from_category(id).unwrap()).collect()
}

fn check_on_canvas(shape: &Shape, width: u32, height: u32) {
    let b = shape.bbox;
    assert!(b.x >= 0 && b.y >= 0 && b.width >= 0 && b.height >= 0);
    assert!(b.x + b.width <= width as i64 * U);
    assert!(b.y + b.height <= height as i64 * U);
    assert!(shape.segmentation.len() >= 6 && shape.segmentation.len() % 2 == 0);
    for v in shape.segmentation.chunks(2) {
        assert!(b.x <= v[0] && v[0] <= b.x + b.width);
        assert!(b.y <= v[1] && v[1] <= b.y + b.height);
    }
}

#[test]
fn draws_lie_in_their_range() {
    let mut rng = Sampler::seeded(1);
    let mut seen = std::collections::HashSet::new();
    for _ in 0..2000 {
        let v = rng.below(-3, 4);
        assert!((-3..4).contains(&v));
        seen.insert(v);
    }
    assert_eq!(seen.len(), 7);
    let mut lows = 0;
    let mut highs = 0;
    for _ in 0..2000 {
        let v = rng.between(10, 12);
        assert!((10..=12).contains(&v));
        if v == 10 {
            lows += 1;
        }
        if v == 12 {
            highs += 1;
        }
    }
    assert!(lows > 0 && highs > 0);
    assert_eq!(rng.between(5, 5), 5);
    assert_eq!(rng.below(i64::MAX - 1, i64::MAX), i64::MAX - 1);
    assert_eq!(rng.between(u32::MAX, u32::MAX), u32::MAX);
}

#[test]
fn a_sure_chance_is_true_and_no_chance_is_false() {
    let mut rng = Sampler::seeded(2);
    let mut hits = 0;
    for _ in 0..1000 {
        assert!(rng.chance(1, 1));
        assert!(rng.chance(7, 7));
        assert!(!rng.chance(0, 1));
        assert!(!rng.chance(0, 9));
        if rng.chance(3, 10) {
            hits += 1;
        }
    }
    assert!(hits > 200 && hits < 400, "{}", hits);
}

#[test]
fn a_seed_fixes_the_draws() {
    let mut a = Sampler::seeded(99);
    let mut b = Sampler::seeded(99);
    let mut c = Sampler::seeded(100);
    let xs: Vec<i64> = (0..50).map(|_| a.below(0, 1_000_000)).collect();
    let ys: Vec<i64> = (0..50).map(|_| b.below(0, 1_000_000)).collect();
    let zs: Vec<i64> = (0..50).map(|_| c.below(0, 1_000_000)).collect();
    assert_eq!(xs, ys);
    assert_ne!(xs, zs);
}

#[test]
fn every_generated_shape_is_enclosed_and_on_the_canvas() {
    let mut rng = Sampler::seeded(3);
    for kind in all_kinds() {
        for (width, height, max_size) in [(400, 400, 80), (640, 480, 200), (200, 300, 100), (90, 90, 45)] {
            for _ in 0..200 {
                if let Some(shape) = generator(kind)(&mut rng, width, height, kind.category_id(), max_size) {
                    assert_eq!(shape.category_id, kind.category_id());
                    check_on_canvas(&shape, width, height);
                }
            }
        }
    }
}

#[test]
fn sizes_stay_within_the_range_of_the_kind() {
    let mut rng = Sampler::seeded(4);
    for _ in 0..500 {
        let r = generate_rectangle_shape(&mut rng, 400, 400, 1, 200).unwrap();
        assert!(r.bbox.width >= 40 * U && r.bbox.width <= 100 * U);
        assert!(r.bbox.height >= 40 * U && r.bbox.height <= 100 * U);
        let t = generate_triangle_shape(&mut rng, 400, 400, 2, 200).unwrap();
        assert!(t.bbox.width >= 40 * U && t.bbox.width <= 80 * U);
        let p = generate_pentagon_shape(&mut rng, 400, 400, 3, 200).unwrap();
        assert!(p.bbox.width >= 60 * U && p.bbox.width <= 120 * U);
        let s = generate_star_shape(&mut rng, 400, 400, 7, 50).unwrap();
        assert_eq!(s.bbox.width, 50 * U);
        let a = generate_arrow_shape(&mut rng, 400, 400, 9, 30).unwrap();
        assert_eq!(a.bbox.width, 30 * U);
        assert_eq!(a.bbox.height, 12 * U);
        let h = generate_house_shape(&mut rng, 400, 400, 10, 20).unwrap();
        assert_eq!(h.bbox.width, 20 * U);
        assert_eq!(h.bbox.height, 14 * U);
    }
}

#[test]
fn a_kind_with_room_at_its_largest_size_is_always_generated() {
    let mut rng = Sampler::seeded(5);
    for kind in all_kinds() {
        for _ in 0..300 {
            assert!(generator(kind)(&mut rng, 400, 400, kind.category_id(), 80).is_some());
        }
    }
}

#[test]
fn a_canvas_without_room_yields_nothing() {
    let mut rng = Sampler::seeded(6);
    for kind in all_kinds() {
        for _ in 0..50 {
            assert!(generator(kind)(&mut rng, 0, 0, kind.category_id(), 0).is_none());
        }
    }
    for _ in 0..50 {
        // size five, and no centre five pixels from both edges of ten
        assert!(generate_triangle_shape(&mut rng, 10, 10, 2, 5).is_none());
        assert!(generate_cross_shape(&mut rng, 10, 400, 8, 5).is_none());
        assert!(generate_diamond_shape(&mut rng, 400, 10, 6, 5).is_none());
    }
}

#[test]
fn a_size_without_room_yields_nothing_and_the_others_a_shape() {
    let mut rng = Sampler::seeded(7);
    let mut some = 0;
    let mut none = 0;
    for _ in 0..2000 {
        match generate_triangle_shape(&mut rng, 100, 100, 2, 50) {
            Some(shape) => {
                assert!(shape.bbox.width < 50 * U);
                check_on_canvas(&shape, 100, 100);
                some += 1;
            }
            None => none += 1,
        }
    }
    assert!(some > 0 && none > 0);
}

#[test]
fn arrows_and_houses_keep_their_whole_extent_on_the_canvas() {
    let mut rng = Sampler::seeded(8);
    for _ in 0..3000 {
        let a = generate_arrow_shape(&mut rng, 250, 60, 9, 100).unwrap();
        check_on_canvas(&a, 250, 60);
        let h = generate_house_shape(&mut rng, 120, 120, 10, 100).unwrap();
        check_on_canvas(&h, 120, 120);
    }
}

#[test]
fn sample_shape_is_the_generator_of_each_kind() {
    for kind in all_kinds() {
        let mut a = Sampler::seeded(11);
        let mut b = Sampler::seeded(11);
        for _ in 0..20 {
            let x = sample_shape(kind, &mut a, 300, 300, 5, 80).unwrap();
            let y = generator(kind)(&mut b, 300, 300, 5, 80).unwrap();
            assert_eq!(x.category_id, 5);
            assert_eq!(x.bbox, y.bbox);
            assert_eq!(x.segmentation, y.segmentation);
            assert_eq!(x.area, y.area);
        }
    }
}

#[test]
fn numbers_are_rendered_in_decimal() {
    assert_eq!(decimal_string(0), "0");
    assert_eq!(decimal_string(7), "7");
    assert_eq!(decimal_string(10), "10");
    assert_eq!(decimal_string(1234567890), "1234567890");
    assert_eq!(decimal_string(u64::MAX), "18446744073709551615");
    assert_eq!(signed_decimal_string(0), "0");
    assert_eq!(signed_decimal_string(-1), "-1");
    assert_eq!(signed_decimal_string(42), "42");
    assert_eq!(signed_decimal_string(i64::MIN), "-9223372036854775808");
    assert_eq!(signed_decimal_string(i64::MAX), "9223372036854775807");
}

#[test]
fn a_seeded_sampler_stands_at_the_start_of_its_stream() {
    assert_eq!(Sampler::seeded(0), Sampler { seed: 0, position: 0 });
    assert_eq!(Sampler::seeded(u64::MAX), Sampler { seed: u64::MAX, position: 0 });
}

#[test]
fn draws_are_those_of_the_generator_keyed_from_the_seed() {
    for seed in [0u64, 1, 42, u64::MAX] {
        let mut sampler = Sampler::seeded(seed);
        let mut chacha = rand_chacha::ChaCha12Rng::seed_from_u64(seed);
        let mut std = rand::rngs::StdRng::seed_from_u64(seed);
        for step in 0..3000u32 {
            match step % 3 {
                0 => {
                    let (low, high) = (-(step as i64) - 1, 1 + 7 * step as i64);
                    let want = chacha.gen_range(low..high);
                    assert_eq!(std.gen_range(low..high), want);
                    assert_eq!(sampler.below(low, high), want);
                }
                1 => {
                    let (low, high) = (step / 2, step);
                    let want = chacha.gen_range(low as i64..high as i64 + 1) as u32;
                    assert_eq!(std.gen_range(low as i64..high as i64 + 1) as u32, want);
                    assert_eq!(sampler.between(low, high), want);
                }
                _ => {
                    let (numerator, denominator) = (step % 11, 10 + step % 7);
                    let want = chacha.gen_ratio(numerator, denominator);
                    assert_eq!(std.gen_ratio(numerator, denominator), want);
                    assert_eq!(sampler.chance(numerator, denominator), want);
                }
            }
            assert_eq!(sampler.seed, seed);
            assert_eq!(sampler.position, chacha.get_word_pos());
        }
        assert!(sampler.position >= 4000);
    }
}

#[test]
fn every_draw_moves_the_sampler_on() {
    let mut sampler = Sampler::seeded(9);
    let mut last = 0;
    for _ in 0..500 {
        sampler.below(0, 1000);
        assert!(sampler.position >= last + 2);
        last = sampler.position;
        sampler.between(0, 5);
        assert!(sampler.position >= last + 2);
        last = sampler.position;
        sampler.chance(1, 2);
        assert_eq!(sampler.position, last + 2);
        last = sampler.position;
    }
    // a sure draw reads nothing from the stream
    sampler.chance(3, 3);
    assert_eq!(sampler.position, last);
}

#[test]
fn a_sampler_resumes_from_its_seed_and_position() {
    let mut first = Sampler::seeded(77);
    for _ in 0..100 {
        first.below(-50, 50);
    }
    let mut resumed = Sampler { seed: first.seed, position: first.position };
    for _ in 0..200 {
        assert_eq!(resumed.below(0, 1_000_000), first.below(0, 1_000_000));
        assert_eq!(resumed.chance(3, 10), first.chance(3, 10));
        assert_eq!(resumed.between(1, 10), first.between(1, 10));
        assert_eq!(resumed, first);
    }
    let mut elsewhere = Sampler { seed: 77, position: 5 };
    let mut start = Sampler::seeded(77);
    let a: Vec<i64> = (0..20).map(|_| elsewhere.below(0, 1_000_000)).collect();
    let b: Vec<i64> = (0..20).map(|_| start.below(0, 1_000_000)).collect();
    assert_ne!(a, b);
}

#[test]
fn a_sampler_at_any_position_draws_in_range() {
    for position in [u128::MAX, 1 << 68, (1 << 68) - 1, 63, 64, 65, 1 << 40] {
        let mut sampler = Sampler { seed: 3, position };
        for _ in 0..100 {
            let v = sampler.below(-5, 5);
            assert!((-5..5).contains(&v));
            assert!(sampler.position < (1 << 68) + 2);
        }
    }
}

#[test]
fn generators_draw_size_then_position() {
    let lows = |kind: ShapeKind, a: i64, b: i64| match kind {
        ShapeKind::Rectangle => ((0, a), (0, b)),
        ShapeKind::Arrow => ((a, a), ((a + 4) / 5, (a + 4) / 5)),
        ShapeKind::House => (((a + 1) / 2, (a + 1) / 2), ((a + 1) / 2, (a + 1) / 2)),
        _ => ((a, a), (a, a)),
    };
    for kind in all_kinds() {
        for seed in 0..40 {
            let (width, height, max_size) = (180i64, 150i64, 90i64);
            let mut rng = Sampler::seeded(seed);
            let mut mirror = Sampler::seeded(seed);
            let got = generator(kind)(&mut rng, width as u32, height as u32, 7, max_size as u32);
            let radial = matches!(kind, ShapeKind::Pentagon | ShapeKind::Hexagon | ShapeKind::Octagon | ShapeKind::Star);
            let (low, high) = if radial {
                (30.min(max_size / 2), 60.min(max_size / 2))
            } else {
                let cap = match kind {
                    ShapeKind::Rectangle | ShapeKind::Arrow | ShapeKind::House => 100,
                    _ => 80,
                };
                (40.min(max_size), cap.min(max_size))
            };
            let a = mirror.below(low, high + 1);
            let b = if kind == ShapeKind::Rectangle { mirror.below(low, high + 1) } else { a };
            let ((lx, rx), (ly, ry)) = lows(kind, a, b);
            if lx + rx >= width || ly + ry >= height {
                assert!(got.is_none());
            } else {
                let px = mirror.below(lx, width - rx);
                let py = mirror.below(ly, height - ry);
                let want = coav::catalog::build_shape(kind, 7, a as u32, b as u32, px as u32, py as u32);
                let got = got.unwrap();
                assert_eq!(got.bbox, want.bbox);
                assert_eq!(got.segmentation, want.segmentation);
                assert_eq!(got.area, want.area);
                assert_eq!(got.category_id, 7);
            }
            assert_eq!(rng, mirror);
        }
    }
}

#[test]
fn a_chance_reads_two_words_unless_it_is_sure() {
    let length: u128 = 1 << 68;
    for position in [0u128, 1, 15, 16, 62, 63, 64, 65, length - 3, length - 2, length - 1, length, length + 5, u128::MAX] {
        for (numerator, denominator) in [(0u32, 1u32), (1, 2), (3, 10), (9, 10), (0, 7)] {
            let mut sampler = Sampler { seed: 11, position };
            sampler.chance(numerator, denominator);
            assert_eq!(sampler.position, (position % length + 2) % length, "{} {}/{}", position, numerator, denominator);
        }
        for sure in [1u32, 2, 10, u32::MAX] {
            let mut sampler = Sampler { seed: 11, position };
            assert!(sampler.chance(sure, sure));
            assert_eq!(sampler.position, position % length);
        }
    }
}
