use coav::canvas::Canvas;
use coav::geometry::{boxes_overlap, BBox, UNITS_PER_PIXEL};
use coav::metadata::{is_known_extension, is_supported_extension, ImageMetadata};
use coav::models::{
    copy_categories, copy_extras, copy_images, copy_licenses, copy_polygons, copy_text,
    AnnotationOption, COCOAnnotation, COCOCategory, COCOData, COCOImage, COCOInfo, COCOLicense,
    DetectionRecord, Difficulty, ExtraField, ValidationError,
};
use coav::rasterizer::{draw_shape, shape_color, ColorPolicy};
use coav::sample_generator::{
    annotate, check_canvas_fits, difficulty_of, generate_image, generate_option_for_annotation,
    generate_sample_data, GenerateError, GeneratedSample,
};
use coav::sampler::Sampler;
use coav::settings::{
    annotation_file_name, image_file_name, make_categories, make_licenses, pair_file_name,
    resolve, summary_message, SampleGeneratorParams,
};
use coav::catalog::rectangle_shape;
use coav::pair::PairError;

const U: i64 = UNITS_PER_PIXEL;

fn params(width: u32, height: u32) -> SampleGeneratorParams {
    SampleGeneratorParams {
        width,
        height,
        output_dir: "out".to_string(),
        image_count: None,
        class_count: None,
        annotation_count: None,
        filename: None,
        max_object_size: None,
        allow_overlap: None,
        include_licenses: None,
        include_option: None,
        include_multi_polygon: None,
        include_pair_json: None,
        change_pair_category_names: None,
        max_pair_matches: None,
        pair_perfect_match_ratio: None,
        pair_partial_match_ratio: None,
        pair_no_match_ratio: None,
        pair_additional_ratio: None,
    }
}

fn run(p: &SampleGeneratorParams, seed: u64) -> GeneratedSample {
    let mut rng = Sampler::seeded(seed);
    generate_sample_data(p, &mut rng).unwrap()
}

fn annotation(id: i64, bbox: Vec<i64>) -> COCOAnnotation {
    COCOAnnotation {
        id,
        image_id: 1,
        category_id: 1,
        segmentation: None,
        area: 0,
        bbox,
        iscrowd: 0,
        option: None,
        extra: Vec::new(),
    }
}

fn image(id: i64, name: &str) -> COCOImage {
    COCOImage {
        id,
        width: 640,
        height: 480,
        file_name: name.to_string(),
        license: None,
        flickr_url: None,
        coco_url: None,
        date_captured: None,
        extra: Vec::new(),
    }
}

fn category(id: i32, name: &str) -> COCOCategory {
    COCOCategory { id, name: name.to_string(), supercategory: None, extra: Vec::new() }
}

fn dataset(images: Vec<COCOImage>, categories: Vec<COCOCategory>, annotations: Vec<COCOAnnotation>) -> COCOData {
    COCOData { info: None, images, annotations, categories, licenses: None, extra: Vec::new() }
}

fn box_of(a: &COCOAnnotation) -> BBox {
    BBox { x: a.bbox[0], y: a.bbox[1], width: a.bbox[2], height: a.bbox[3] }
}

#[test]
fn a_dataset_with_images_categories_and_four_number_boxes_is_valid() {
    let data = dataset(
        vec![image(1, "a.png")],
        vec![category(1, "rectangle")],
        vec![annotation(1, vec![0, 0, 1, 1]), annotation(2, vec![5, 5, 5, 5])],
    );
    assert_eq!(data.validate(), Ok(()));
    let bare = dataset(vec![image(1, "a.png")], vec![category(1, "rectangle")], Vec::new());
    assert_eq!(bare.validate(), Ok(()));
}

#[test]
fn a_dataset_without_images_is_rejected_first() {
    let data = dataset(Vec::new(), Vec::new(), vec![annotation(1, vec![1])]);
    assert_eq!(data.validate(), Err(ValidationError::NoImages));
    assert_eq!(ValidationError::NoImages.message(), "No images found in COCO data");
}

#[test]
fn a_dataset_without_categories_is_rejected_next() {
    let data = dataset(vec![image(1, "a.png")], Vec::new(), vec![annotation(1, vec![1])]);
    assert_eq!(data.validate(), Err(ValidationError::NoCategories));
    assert_eq!(ValidationError::NoCategories.message(), "No categories found in COCO data");
}

#[test]
fn the_first_box_that_is_not_four_numbers_is_reported() {
    let data = dataset(
        vec![image(1, "a.png")],
        vec![category(1, "rectangle")],
        vec![
            annotation(10, vec![0, 0, 1, 1]),
            annotation(-7, vec![0, 0, 1]),
            annotation(12, Vec::new()),
            annotation(13, vec![0, 0, 1, 1, 1]),
        ],
    );
    assert_eq!(data.validate(), Err(ValidationError::InvalidBbox(-7)));
    assert_eq!(ValidationError::InvalidBbox(-7).message(), "Invalid bbox format for annotation -7");
    assert_eq!(
        ValidationError::InvalidBbox(i64::MAX).message(),
        "Invalid bbox format for annotation 9223372036854775807"
    );
    let long = dataset(
        vec![image(1, "a.png")],
        vec![category(1, "rectangle")],
        vec![annotation(3, vec![0, 0, 1, 1, 1])],
    );
    assert_eq!(long.validate(), Err(ValidationError::InvalidBbox(3)));
}

#[test]
fn copies_are_equal_to_their_originals() {
    let extra = vec![ExtraField { key: "k".to_string(), value: "[1,2]".to_string() }];
    assert_eq!(copy_extras(&extra), extra);
    assert_eq!(copy_text(&Some("x".to_string())), Some("x".to_string()));
    assert_eq!(copy_text(&None), None);
    let polygons = vec![vec![1, 2, 3], Vec::new(), vec![4]];
    assert_eq!(copy_polygons(&polygons), polygons);
    let mut img = image(4, "b.png");
    img.license = Some(2);
    img.coco_url = Some("u".to_string());
    img.extra = copy_extras(&extra);
    assert_eq!(img.duplicate(), img);
    assert_eq!(copy_images(&vec![image(1, "a"), image(2, "b")]), vec![image(1, "a"), image(2, "b")]);
    let mut cat = category(3, "pentagon");
    cat.supercategory = Some("shape".to_string());
    assert_eq!(cat.duplicate(), cat);
    assert_eq!(copy_categories(&vec![category(1, "a")]), vec![category(1, "a")]);
    let license = COCOLicense { url: None, id: 5, name: "n".to_string(), extra: copy_extras(&extra) };
    assert_eq!(license.duplicate(), license);
    assert_eq!(copy_licenses(&None), None);
    assert_eq!(copy_licenses(&Some(make_licenses())), Some(make_licenses()));
    let info = COCOInfo {
        description: Some("d".to_string()),
        url: None,
        version: Some("1".to_string()),
        year: Some(1999),
        contributor: None,
        date_created: Some("now".to_string()),
        extra: copy_extras(&extra),
    };
    assert_eq!(info.duplicate(), info);
    let mut a = annotation(9, vec![1, 2, 3, 4]);
    a.segmentation = Some(polygons);
    a.area = -5;
    a.option = Some(AnnotationOption::Raw("{\"a\":1}".to_string()));
    a.extra = extra;
    assert_eq!(a.duplicate(), a);
    let record = AnnotationOption::Detection(DetectionRecord {
        confidence: 1,
        quality_score: 2,
        verified: true,
        note_number: 3,
        difficulty: Difficulty::Hard,
        visibility: 4,
        occlusion: false,
        timestamp: "t".to_string(),
    });
    assert_eq!(record.duplicate(), record);
}

#[test]
fn options_left_out_take_their_defaults() {
    let s = resolve(&params(400, 300));
    assert_eq!((s.width, s.height), (400, 300));
    assert_eq!(s.num_images, 1);
    assert_eq!(s.num_classes, 4);
    assert_eq!(s.num_annotations, 10);
    assert_eq!(s.base_filename, "sample");
    assert_eq!(s.max_size, 80);
    assert!(s.allow_overlap);
    assert!(!s.include_licenses && !s.include_option && !s.include_multi_polygon);
    assert!(!s.include_pair_json && !s.change_pair_category_names);
    assert_eq!(s.max_pair_matches, 1);
    assert_eq!(s.distribution, (250_000, 350_000, 200_000, 200_000));
}

#[test]
fn options_given_are_kept_within_their_limits() {
    let mut p = params(100, 70);
    p.image_count = Some(25);
    p.class_count = Some(11);
    p.annotation_count = Some(1000);
    p.filename = Some("run7".to_string());
    p.max_object_size = Some(500);
    p.allow_overlap = Some(false);
    p.include_licenses = Some(true);
    p.include_option = Some(true);
    p.include_multi_polygon = Some(true);
    p.include_pair_json = Some(true);
    p.change_pair_category_names = Some(true);
    p.max_pair_matches = Some(5);
    p.pair_perfect_match_ratio = Some(1);
    p.pair_partial_match_ratio = Some(2);
    p.pair_no_match_ratio = Some(3);
    p.pair_additional_ratio = Some(4_000_000);
    let s = resolve(&p);
    assert_eq!(s.num_images, 10);
    assert_eq!(s.num_classes, 10);
    assert_eq!(s.num_annotations, 1000);
    assert_eq!(s.base_filename, "run7");
    assert_eq!(s.max_size, 35);
    assert!(!s.allow_overlap);
    assert!(s.include_licenses && s.include_option && s.include_multi_polygon);
    assert!(s.include_pair_json && s.change_pair_category_names);
    assert_eq!(s.max_pair_matches, 5);
    assert_eq!(s.distribution, (1, 2, 3, 4_000_000));
    p.image_count = Some(0);
    p.class_count = Some(0);
    p.max_object_size = Some(20);
    let s = resolve(&p);
    assert_eq!((s.num_images, s.num_classes, s.max_size), (0, 0, 20));
    assert_eq!(resolve(&params(401, 1)).max_size, 0);
}

#[test]
fn categories_are_the_first_kinds_of_the_catalogue() {
    let two = make_categories(2);
    assert_eq!(two.len(), 2);
    assert_eq!((two[0].id, two[0].name.as_str()), (1, "rectangle"));
    assert_eq!((two[1].id, two[1].name.as_str()), (2, "triangle"));
    assert_eq!(two[1].supercategory.as_deref(), Some("shape"));
    assert!(two[0].extra.is_empty());
    let names: Vec<String> = make_categories(99).into_iter().map(|c| c.name).collect();
    assert_eq!(
        names,
        ["rectangle", "triangle", "pentagon", "hexagon", "octagon", "diamond", "star", "cross", "arrow", "house"]
    );
    assert!(make_categories(0).is_empty());
}

#[test]
fn the_two_licenses_are_fixed() {
    let l = make_licenses();
    assert_eq!(l.len(), 2);
    assert_eq!((l[0].id, l[0].name.as_str()), (1, "Attribution License"));
    assert_eq!(l[0].url.as_deref(), Some("http://creativecommons.org/licenses/by/4.0/"));
    assert_eq!((l[1].id, l[1].name.as_str()), (2, "Attribution-NonCommercial License"));
    assert_eq!(l[1].url.as_deref(), Some("http://creativecommons.org/licenses/by-nc/4.0/"));
}

#[test]
fn files_are_named_after_the_run() {
    let base = "demo".to_string();
    assert_eq!(image_file_name(&base, 1, 1), "demo-image.png");
    assert_eq!(image_file_name(&base, 3, 1), "demo-image-1.png");
    assert_eq!(image_file_name(&base, 10, 10), "demo-image-10.png");
    assert_eq!(image_file_name(&base, 0, 4), "demo-image-4.png");
    assert_eq!(annotation_file_name(&base), "demo-annotation.json");
    assert_eq!(pair_file_name(&base), "demo-pair.json");
    assert_eq!(annotation_file_name(&String::new()), "-annotation.json");
}

#[test]
fn the_summary_adds_words_only_to_a_short_run() {
    assert_eq!(
        summary_message(&"/tmp/x".to_string(), 2, 4, 20, 20),
        "Sample data generated successfully in /tmp/x with 2 images, 4 classes and 20 total annotations"
    );
    assert_eq!(
        summary_message(&"d".to_string(), 1, 10, 7, 12),
        "Sample data generated successfully in d with 1 images, 10 classes and 7 total annotations (limited by space constraints)"
    );
}

#[test]
fn a_small_run_without_overlap() {
    let mut p = params(400, 400);
    p.class_count = Some(2);
    p.annotation_count = Some(5);
    p.allow_overlap = Some(false);
    p.max_object_size = Some(80);
    for seed in 0..30 {
        let sample = run(&p, seed);
        let data = &sample.data;
        assert!(data.annotations.len() <= 5);
        for i in 0..data.annotations.len() {
            for j in i + 1..data.annotations.len() {
                assert!(!boxes_overlap(&box_of(&data.annotations[i]), &box_of(&data.annotations[j])));
            }
        }
        let names: Vec<&str> = data.categories.iter().map(|c| c.name.as_str()).collect();
        assert_eq!(names, ["rectangle", "triangle"]);
        assert_eq!(data.validate(), Ok(()));
    }
}

#[test]
fn a_default_run_yields_one_image_and_ten_annotations() {
    let sample = run(&params(400, 300), 42);
    let data = &sample.data;
    assert_eq!(sample.canvases.len(), 1);
    assert_eq!((sample.canvases[0].width(), sample.canvases[0].height()), (400, 300));
    assert_eq!(sample.offsets, vec![0, 10]);
    assert_eq!(data.images.len(), 1);
    let img = &data.images[0];
    assert_eq!((img.id, img.width, img.height), (1, 400, 300));
    assert_eq!(img.file_name, "sample-image.png");
    assert_eq!(img.license, None);
    assert!(img.flickr_url.is_none() && img.coco_url.is_none() && img.date_captured.is_none());
    assert_eq!(data.categories.len(), 4);
    assert_eq!(data.licenses, None);
    assert!(data.extra.is_empty());
    let info = data.info.as_ref().unwrap();
    assert_eq!(info.description.as_deref(), Some("Sample COCO dataset generated for testing"));
    assert_eq!(info.version.as_deref(), Some("1.0"));
    assert_eq!(info.year, Some(2024));
    assert_eq!(info.contributor.as_deref(), Some("COAV"));
    assert_eq!(info.url, None);
    assert!(info.date_created.as_ref().unwrap().len() >= 20);
    assert_eq!(data.annotations.len(), 10);
    for (k, a) in data.annotations.iter().enumerate() {
        let shape = &sample.shapes[0][k];
        assert_eq!(a.id, k as i64 + 1);
        assert_eq!(a.image_id, 1);
        assert!((1..=4).contains(&a.category_id));
        assert_eq!(a.category_id, shape.category_id);
        assert_eq!(a.bbox, shape.bbox.to_vec());
        assert_eq!(a.segmentation, Some(vec![shape.segmentation.clone()]));
        assert_eq!(a.area, shape.area);
        assert_eq!(a.iscrowd, 0);
        assert_eq!(a.option, None);
        assert!(a.extra.is_empty());
    }
    assert_eq!(sample.annotation_file, "sample-annotation.json");
    assert_eq!(sample.pair_file, "sample-pair.json");
    assert!(sample.pair.is_none());
    assert_eq!(
        sample.message,
        "Sample data generated successfully in out with 1 images, 4 classes and 10 total annotations"
    );
    assert_eq!(data.validate(), Ok(()));
}

#[test]
fn a_seed_fixes_the_run() {
    let mut p = params(300, 300);
    p.include_multi_polygon = Some(true);
    p.include_licenses = Some(true);
    let a = run(&p, 5);
    let b = run(&p, 5);
    let c = run(&p, 6);
    assert_eq!(a.data.annotations, b.data.annotations);
    assert_eq!(a.data.images, b.data.images);
    assert_ne!(a.data.annotations, c.data.annotations);
}

#[test]
fn ids_count_up_across_all_images() {
    let mut p = params(400, 400);
    p.image_count = Some(4);
    p.annotation_count = Some(6);
    p.allow_overlap = Some(false);
    p.class_count = Some(10);
    p.filename = Some("multi".to_string());
    for seed in 0..10 {
        let sample = run(&p, seed);
        let data = &sample.data;
        assert_eq!(data.images.len(), 4);
        assert_eq!(sample.offsets.len(), 5);
        assert_eq!(sample.offsets[0], 0);
        assert_eq!(*sample.offsets.last().unwrap(), data.annotations.len());
        for (i, img) in data.images.iter().enumerate() {
            assert_eq!(img.id, i as i64 + 1);
            assert_eq!(img.file_name, format!("multi-image-{}.png", i + 1));
            assert_eq!(sample.offsets[i + 1] - sample.offsets[i], sample.shapes[i].len());
            for k in sample.offsets[i]..sample.offsets[i + 1] {
                assert_eq!(data.annotations[k].image_id, i as i64 + 1);
            }
        }
        for (k, a) in data.annotations.iter().enumerate() {
            assert_eq!(a.id, k as i64 + 1);
        }
        for w in data.annotations.windows(2) {
            assert!(w[0].id < w[1].id);
        }
        let requested = 24;
        let suffix = if data.annotations.len() == requested {
            "total annotations"
        } else {
            "(limited by space constraints)"
        };
        assert!(sample.message.ends_with(suffix));
        assert!(sample.message.contains(&format!("and {} total annotations", data.annotations.len())));
    }
}

#[test]
fn the_canvases_show_the_shapes_in_gray() {
    let mut p = params(200, 150);
    p.image_count = Some(2);
    p.class_count = Some(10);
    p.annotation_count = Some(4);
    p.max_object_size = Some(60);
    let sample = run(&p, 12);
    let shapes = sample.shapes;
    for (i, canvas) in sample.canvases.into_iter().enumerate() {
        let mut replay = Canvas::blank(200, 150);
        for shape in &shapes[i] {
            draw_shape(&mut replay, shape, shape_color(ColorPolicy::Gray, shape.category_id, 10));
        }
        let bytes = canvas.into_bytes();
        assert!(bytes.iter().any(|b| *b == 128));
        assert!(bytes.iter().all(|b| *b == 128 || *b == 255));
        assert_eq!(bytes, replay.into_bytes());
    }
}

#[test]
fn licenses_and_options_are_attached_when_asked_for() {
    let mut p = params(400, 400);
    p.image_count = Some(6);
    p.include_licenses = Some(true);
    p.include_option = Some(true);
    let sample = run(&p, 3);
    assert_eq!(sample.data.licenses, Some(make_licenses()));
    let mut seen = [false; 3];
    for img in &sample.data.images {
        let l = img.license.unwrap();
        assert!(l == 1 || l == 2);
        seen[l as usize] = true;
    }
    assert!(seen[1] && seen[2]);
    assert_eq!(sample.data.annotations.len(), 60);
    for a in &sample.data.annotations {
        match a.option.as_ref().unwrap() {
            AnnotationOption::Detection(d) => {
                assert!((500_000..1_000_000).contains(&d.confidence));
                assert!((600_000..1_000_000).contains(&d.quality_score));
                assert!((1000..9999).contains(&d.note_number));
                assert!((300_000..1_000_000).contains(&d.visibility));
                assert!(d.timestamp.contains('T'));
            }
            AnnotationOption::Raw(_) => panic!("a generated option is a detection record"),
        }
    }
}

#[test]
fn a_detection_record_is_drawn_within_its_ranges() {
    let mut rng = Sampler::seeded(8);
    let mut difficulties = Vec::new();
    for _ in 0..200 {
        match generate_option_for_annotation(&mut rng) {
            AnnotationOption::Detection(d) => {
                assert!((500_000..1_000_000).contains(&d.confidence));
                assert!((600_000..1_000_000).contains(&d.quality_score));
                assert!((1000..9999).contains(&d.note_number));
                assert!((300_000..1_000_000).contains(&d.visibility));
                if !difficulties.contains(&d.difficulty) {
                    difficulties.push(d.difficulty);
                }
            }
            AnnotationOption::Raw(_) => panic!("a generated option is a detection record"),
        }
    }
    assert_eq!(difficulties.len(), 3);
    assert_eq!(difficulty_of(0), Difficulty::Easy);
    assert_eq!(difficulty_of(1), Difficulty::Medium);
    assert_eq!(difficulty_of(2), Difficulty::Hard);
    assert_eq!(difficulty_of(9), Difficulty::Hard);
}

#[test]
fn multi_polygon_annotations_are_boxed_by_all_their_polygons() {
    let mut p = params(400, 400);
    p.annotation_count = Some(40);
    p.class_count = Some(10);
    p.include_multi_polygon = Some(true);
    let mut multi = 0;
    let mut plain = 0;
    for seed in 0..5 {
        let sample = run(&p, seed);
        for (k, a) in sample.data.annotations.iter().enumerate() {
            let shape = &sample.shapes[0][k];
            let polygons = a.segmentation.as_ref().unwrap();
            assert_eq!(polygons[0], shape.segmentation);
            assert_eq!(a.area, shape.area);
            let b = box_of(a);
            let xs: Vec<i64> = polygons.iter().flat_map(|p| p.iter().step_by(2).copied()).collect();
            let ys: Vec<i64> = polygons.iter().flat_map(|p| p.iter().skip(1).step_by(2).copied()).collect();
            if a.bbox == shape.bbox.to_vec() && polygons.len() == 1 {
                plain += 1;
            } else {
                multi += 1;
                assert_eq!(b.x, *xs.iter().min().unwrap());
                assert_eq!(b.y, *ys.iter().min().unwrap());
                assert_eq!(b.x + b.width, *xs.iter().max().unwrap());
                assert_eq!(b.y + b.height, *ys.iter().max().unwrap());
            }
            assert!(xs.iter().all(|x| b.x <= *x && *x <= b.x + b.width));
            assert!(ys.iter().all(|y| b.y <= *y && *y <= b.y + b.height));
            assert!(b.x >= 0 && b.y >= 0 && b.x + b.width <= 400 * U && b.y + b.height <= 400 * U);
            for poly in &polygons[1..] {
                let square = BBox { x: poly[0], y: poly[1], width: poly[2] - poly[0], height: poly[5] - poly[1] };
                for earlier in &sample.shapes[0][..k] {
                    assert!(!boxes_overlap(&square, &earlier.bbox));
                }
            }
        }
    }
    assert!(multi > 20 && plain > 80, "{} {}", multi, plain);
}

#[test]
fn annotate_without_extras_copies_the_shape() {
    let mut rng = Sampler::seeded(1);
    let shape = rectangle_shape(1, 40, 50, 10, 20);
    let a = annotate(&shape, &mut rng, 17, 3, false, false, 400, 400, &[]);
    assert_eq!((a.id, a.image_id, a.category_id, a.iscrowd), (17, 3, 1, 0));
    assert_eq!(a.bbox, vec![10 * U, 20 * U, 40 * U, 50 * U]);
    assert_eq!(a.segmentation, Some(vec![shape.segmentation.clone()]));
    assert_eq!(a.area, shape.area);
    assert_eq!(a.option, None);
}

#[test]
fn generate_image_numbers_its_annotations_from_the_first_id() {
    let mut p = params(300, 300);
    p.image_count = Some(3);
    p.annotation_count = Some(5);
    let settings = resolve(&p);
    let mut rng = Sampler::seeded(4);
    let sample = generate_image(&mut rng, &settings, 2, 100);
    assert_eq!(sample.image.id, 2);
    assert_eq!(sample.image.file_name, "sample-image-2.png");
    assert_eq!(sample.shapes.len(), 5);
    assert_eq!(sample.annotations.len(), 5);
    for (j, a) in sample.annotations.iter().enumerate() {
        assert_eq!(a.id, 100 + j as i64);
        assert_eq!(a.image_id, 2);
    }
}

#[test]
fn a_run_without_images_or_annotations_is_empty() {
    let mut p = params(400, 400);
    p.image_count = Some(0);
    p.include_pair_json = Some(true);
    let sample = run(&p, 1);
    assert!(sample.canvases.is_empty() && sample.data.images.is_empty());
    assert!(sample.data.annotations.is_empty());
    assert_eq!(sample.offsets, vec![0]);
    assert!(sample.pair.unwrap().annotations.is_empty());
    assert!(sample.message.ends_with("with 0 images, 4 classes and 0 total annotations"));
    let mut q = params(400, 400);
    q.annotation_count = Some(0);
    let sample = run(&q, 1);
    assert_eq!(sample.data.images.len(), 1);
    assert!(sample.data.annotations.is_empty());
    assert_eq!(sample.data.validate(), Ok(()));
}

#[test]
fn a_canvas_without_room_yields_images_without_annotations() {
    let sample = run(&params(0, 0), 1);
    assert_eq!(sample.data.images.len(), 1);
    assert!(sample.data.annotations.is_empty());
    assert!(sample.message.ends_with("(limited by space constraints)"));
    // on a single pixel only shapes of size zero have room
    let sample = run(&params(1, 1), 1);
    assert_eq!(sample.data.annotations.len(), 10);
    for a in &sample.data.annotations {
        assert_eq!(a.bbox, vec![0, 0, 0, 0]);
        assert_eq!(a.area, 0);
    }
    assert_eq!(sample.canvases[0].pixel(0, 0), Some(coav::canvas::Color { r: 255, g: 255, b: 255 }));
    // no canvas is made when no image is asked for, however large
    let mut p = params(u32::MAX, u32::MAX);
    p.image_count = Some(0);
    assert!(run(&p, 1).canvases.is_empty());
}

#[test]
fn a_canvas_that_is_too_large_is_refused() {
    let mut rng = Sampler::seeded(1);
    assert!(check_canvas_fits(400, 400));
    assert!(check_canvas_fits(0, u32::MAX / 2));
    assert!(!check_canvas_fits(u32::MAX, u32::MAX));
    assert!(!check_canvas_fits(u32::MAX, 1));
    assert!(!check_canvas_fits(1, 0x8000_0000));
    for (w, h) in [(u32::MAX, u32::MAX), (0x8000_0000, 1), (0, u32::MAX)] {
        match generate_sample_data(&params(w, h), &mut rng) {
            Err(e) => {
                assert_eq!(e, GenerateError::CanvasTooLarge);
                assert_eq!(e.message(), "Failed to create image: canvas is too large");
            }
            Ok(_) => panic!("a canvas of {} by {} cannot be made", w, h),
        }
    }
}

#[test]
fn a_run_that_could_outgrow_the_ids_is_refused() {
    let mut rng = Sampler::seeded(1);
    let mut p = params(400, 400);
    p.image_count = Some(10);
    p.annotation_count = Some(u32::MAX);
    p.max_pair_matches = Some(u32::MAX);
    p.include_pair_json = Some(true);
    match generate_sample_data(&p, &mut rng) {
        Err(e) => {
            assert_eq!(e, GenerateError::TooManyPairs);
            assert_eq!(e.message(), "Failed to generate pair data: too many annotations");
        }
        Ok(_) => panic!("the run cannot number its pair annotations"),
    }
}

#[test]
fn additional_detections_need_a_canvas_with_room_for_their_margin() {
    let mut rng = Sampler::seeded(1);
    let mut p = params(150, 400);
    p.include_pair_json = Some(true);
    p.max_object_size = Some(40);
    match generate_sample_data(&p, &mut rng) {
        Err(e) => {
            assert_eq!(e, GenerateError::Pair(PairError::CanvasTooSmall));
            assert_eq!(
                e.message(),
                "Failed to generate pair data: image is too small for additional annotations"
            );
        }
        Ok(_) => panic!("additional detections do not fit"),
    }
    p.pair_additional_ratio = Some(0);
    assert!(generate_sample_data(&p, &mut rng).unwrap().pair.is_some());
    p.pair_additional_ratio = Some(200_000);
    p.width = 151;
    p.height = 151;
    assert!(generate_sample_data(&p, &mut rng).unwrap().pair.is_some());
}

#[test]
fn extensions_are_recognised_in_any_case() {
    for ext in ["jpg", "jpeg", "png", "bmp", "gif", "webp", "PNG", "Jpg", "JPEG", "WebP", "GIF", "bMp"] {
        assert!(is_supported_extension(ext), "{}", ext);
    }
    for ext in ["", "txt", "json", "pngx", "jp", "tiff", "p ng", ".png"] {
        assert!(!is_supported_extension(ext), "{}", ext);
    }
    assert!(is_known_extension(&"png".to_string()));
    assert!(!is_known_extension(&"PNG".to_string()));
}

#[test]
fn metadata_records_what_was_found() {
    let found = ImageMetadata::discovered(3, "a.png".to_string(), "/d/a.png".to_string(), Some(12));
    assert_eq!(
        found,
        ImageMetadata {
            id: 3,
            file_name: "a.png".to_string(),
            file_path: "/d/a.png".to_string(),
            width: 0,
            height: 0,
            file_size: Some(12),
            exists: true,
            load_error: None,
        }
    );
    let img = image(8, "sub/b.jpg");
    assert_eq!(
        ImageMetadata::located(&img, "/d/b.jpg".to_string(), None),
        ImageMetadata {
            id: 8,
            file_name: "sub/b.jpg".to_string(),
            file_path: "/d/b.jpg".to_string(),
            width: 640,
            height: 480,
            file_size: None,
            exists: true,
            load_error: None,
        }
    );
    assert_eq!(
        ImageMetadata::missing(&img),
        ImageMetadata {
            id: 8,
            file_name: "sub/b.jpg".to_string(),
            file_path: String::new(),
            width: 640,
            height: 480,
            file_size: None,
            exists: false,
            load_error: Some("File not found: sub/b.jpg".to_string()),
        }
    );
}

#[test]
fn a_full_run_of_two_images_reports_the_plain_sentence() {
    let mut p = params(400, 400);
    p.image_count = Some(2);
    p.annotation_count = Some(1);
    p.allow_overlap = Some(true);
    for seed in 0..20 {
        let sample = run(&p, seed);
        assert_eq!(
            sample.message,
            "Sample data generated successfully in out with 2 images, 4 classes and 2 total annotations"
        );
        let ids: Vec<(i64, i64)> = sample.data.annotations.iter().map(|a| (a.id, a.image_id)).collect();
        assert_eq!(ids, [(1, 1), (2, 2)]);
        assert_eq!(sample.annotation_file, "sample-annotation.json");
    }
}

#[test]
fn keys_of_extra_fields_occur_once() {
    let field = |key: &str, value: &str| ExtraField { key: key.to_string(), value: value.to_string() };
    assert!(coav::models::has_unique_keys(&Vec::new()));
    assert!(coav::models::has_unique_keys(&vec![field("a", "1")]));
    assert!(coav::models::has_unique_keys(&vec![field("a", "1"), field("b", "1"), field("A", "1")]));
    assert!(!coav::models::has_unique_keys(&vec![field("a", "1"), field("b", "2"), field("a", "3")]));
    assert!(!coav::models::has_unique_keys(&vec![field("", "1"), field("", "1")]));
    let sample = run(&params(300, 300), 3);
    assert!(coav::models::has_unique_keys(&sample.data.extra));
    for a in &sample.data.annotations {
        assert!(coav::models::has_unique_keys(&a.extra));
    }
}

#[test]
fn a_detection_record_is_drawn_in_its_order() {
    let mut rng = Sampler::seeded(21);
    let mut mirror = Sampler::seeded(21);
    for _ in 0..50 {
        let confidence = mirror.below(500_000, 1_000_000) as u32;
        let quality_score = mirror.below(600_000, 1_000_000) as u32;
        let verified = mirror.chance(7, 10);
        let note_number = mirror.below(1000, 9999) as u32;
        let difficulty = difficulty_of(mirror.below(0, 3) as u32);
        let visibility = mirror.below(300_000, 1_000_000) as u32;
        let occlusion = mirror.chance(3, 10);
        match generate_option_for_annotation(&mut rng) {
            AnnotationOption::Detection(d) => {
                assert_eq!(
                    (d.confidence, d.quality_score, d.verified, d.note_number, d.difficulty, d.visibility, d.occlusion),
                    (confidence, quality_score, verified, note_number, difficulty, visibility, occlusion)
                );
            }
            AnnotationOption::Raw(_) => panic!("a generated option is a detection record"),
        }
        assert_eq!(rng, mirror);
    }
}

#[test]
fn an_annotation_gets_secondary_polygons_when_the_sampler_says_so() {
    let shape = rectangle_shape(1, 40, 50, 100, 120);
    let earlier = vec![rectangle_shape(1, 40, 40, 10, 10)];
    let mut multi = 0;
    for seed in 0..200 {
        let mut rng = Sampler::seeded(seed);
        let mut mirror = Sampler::seeded(seed);
        let a = annotate(&shape, &mut rng, 5, 2, false, true, 400, 400, &earlier);
        let polygons = if mirror.chance(3, 10) {
            multi += 1;
            let polygons =
                coav::augment::generate_multi_polygon_segmentation(&shape, &mut mirror, 400, 400, &earlier);
            assert!(polygons.len() >= 2);
            assert_eq!(a.bbox, coav::augment::calculate_combined_bbox(&polygons));
            polygons
        } else {
            assert_eq!(a.bbox, shape.bbox.to_vec());
            vec![shape.segmentation.clone()]
        };
        assert_eq!(a.segmentation, Some(polygons));
        assert_eq!(rng, mirror);
        // without multi-polygon segmentation nothing is drawn for it
        let mut plain = Sampler::seeded(seed);
        annotate(&shape, &mut plain, 5, 2, false, false, 400, 400, &earlier);
        assert_eq!(plain, Sampler::seeded(seed));
    }
    assert!(multi > 30 && multi < 100, "{}", multi);
}

#[test]
fn a_run_is_made_image_by_image_as_the_sampler_draws() {
    let mut p = params(300, 260);
    p.image_count = Some(3);
    p.annotation_count = Some(6);
    p.class_count = Some(10);
    p.allow_overlap = Some(false);
    p.include_licenses = Some(true);
    p.include_multi_polygon = Some(true);
    for with_pair in [false, true] {
        p.include_pair_json = Some(with_pair);
        p.max_pair_matches = Some(3);
        let settings = resolve(&p);
        for seed in 0..20 {
            let mut rng = Sampler::seeded(seed);
            let mut mirror = Sampler::seeded(seed);
            let sample = generate_sample_data(&p, &mut rng).unwrap();
            let mut next_id = 1;
            for i in 0..3 {
                let image = generate_image(&mut mirror, &settings, i as u32 + 1, next_id);
                assert_eq!(image.image, sample.data.images[i]);
                assert_eq!(image.annotations[..], sample.data.annotations[sample.offsets[i]..sample.offsets[i + 1]]);
                next_id += image.annotations.len() as i64;
            }
            if with_pair {
                let pair = coav::pair::generate_pair_json(&sample.data, &mut mirror, 3, settings.distribution, false).unwrap();
                assert_eq!(pair.annotations, sample.pair.unwrap().annotations);
            }
            assert_eq!(rng, mirror);
        }
    }
}
