//! The dataset assembler: turns the shapes placed on each canvas into
//! images and annotations of a dataset, and runs one whole generation.

use crate::augment::{
    calculate_combined_bbox, coords_bounded, encloses_all, generate_multi_polygon_segmentation,
    has_vertex, is_combined_box, is_coord, is_secondary, multi_polygons, secondary_at,
};
use crate::canvas::{blank_view, Canvas, CanvasView};
use crate::geometry::{copy_outline, inside_canvas, polygons_view, BBox};
use crate::models::{
    annotations_view, well_keyed, AnnotationOption, AnnotationView, COCOAnnotation, COCOData,
    COCOImage, COCOInfo, DetectionRecord, Difficulty, ExtraField, ImageView, InfoView,
    OptionView,
};
use crate::pair::{
    bucket, bucket_size, generate_pair_json, lemma_appended, match_cap, numbered, pair_capacity,
    pair_draw, pair_of, reference_size, shiftable, Matched, PairError,
};
use crate::placement::{
    acceptable, all_placeable, painted_all, pairwise_disjoint, place_shapes, placed_as, placement,
    Placing,
};
use crate::rasterizer::ColorPolicy;
use crate::sampler::{range_draw, range_end, ratio_draw, ratio_end, Sampler};
use crate::settings::{
    annotation_file, annotation_file_name, at_most, catalogue_categories, image_file,
    image_file_name, make_categories, make_licenses, number_or, pair_file, pair_file_name,
    resolve, standard_licenses, summary, summary_message, switch_or, SampleGeneratorParams,
    Settings, MAX_IMAGES,
};
use crate::shape::Shape;
use chrono::Local;
use vstd::prelude::*;
use vstd::slice::slice_subrange;

verus! {

/// `chrono::Local::now().to_rfc3339()`: the local time of the call as text.
/// Nothing is claimed about it. The call reads the system clock, which is
/// taken not to stand before 1970.
#[verifier::external_body]
fn local_timestamp() -> (s: String) {
    Local::now().to_rfc3339()
}

/// `o` is a detection record as the generator draws it: a confidence of at
/// least a half, a quality score of at least six tenths and a visibility of
/// at least three tenths, all below one, and a note number of four digits.
pub open spec fn is_generated_option(o: OptionView) -> bool {
    o matches OptionView::Detection(d) && {
        &&& 500_000 <= d.confidence < 1_000_000
        &&& 600_000 <= d.quality_score < 1_000_000
        &&& 1000 <= d.note_number < 9999
        &&& 300_000 <= d.visibility < 1_000_000
    }
}

/// The difficulty for a draw among three.
pub fn difficulty_of(draw: u32) -> (d: Difficulty)
    ensures
        d == if draw == 0 {
            Difficulty::Easy
        } else if draw == 1 {
            Difficulty::Medium
        } else {
            Difficulty::Hard
        },
        d == difficulty_for(draw as int),
{
    if draw == 0 {
        Difficulty::Easy
    } else if draw == 1 {
        Difficulty::Medium
    } else {
        Difficulty::Hard
    }
}

/// The difficulty for a draw among three.
pub open spec fn difficulty_for(draw: int) -> Difficulty {
    if draw == 0 {
        Difficulty::Easy
    } else if draw == 1 {
        Difficulty::Medium
    } else {
        Difficulty::Hard
    }
}

/// What is drawn for a detection record, and where the sampler stands
/// afterwards.
pub struct OptionDraw {
    pub confidence: u32,
    pub quality_score: u32,
    pub verified: bool,
    pub note_number: u32,
    pub difficulty: Difficulty,
    pub visibility: u32,
    pub occlusion: bool,
    pub position: u128,
}

/// The detection record the sampler of `seed` at `position` draws, in the
/// order confidence, quality score, verified, note number, difficulty,
/// visibility, occlusion: verified in seven cases out of ten, occluded in
/// three.
pub open spec fn option_draw(seed: u64, position: u128) -> OptionDraw {
    let after_confidence = range_end(seed, position, 500_000, 1_000_000);
    let after_quality = range_end(seed, after_confidence, 600_000, 1_000_000);
    let after_verified = ratio_end(seed, after_quality, 7, 10);
    let after_note = range_end(seed, after_verified, 1000, 9999);
    let after_difficulty = range_end(seed, after_note, 0, 3);
    let after_visibility = range_end(seed, after_difficulty, 300_000, 1_000_000);
    OptionDraw {
        confidence: range_draw(seed, position, 500_000, 1_000_000) as u32,
        quality_score: range_draw(seed, after_confidence, 600_000, 1_000_000) as u32,
        verified: ratio_draw(seed, after_quality, 7, 10),
        note_number: range_draw(seed, after_verified, 1000, 9999) as u32,
        difficulty: difficulty_for(range_draw(seed, after_note, 0, 3) as int),
        visibility: range_draw(seed, after_difficulty, 300_000, 1_000_000) as u32,
        occlusion: ratio_draw(seed, after_visibility, 3, 10),
        position: ratio_end(seed, after_visibility, 3, 10),
    }
}

/// `o` is the detection record of the draw, whatever its time stamp.
pub open spec fn is_option_of(o: OptionView, draw: OptionDraw) -> bool {
    o matches OptionView::Detection(d) && {
        &&& d.confidence == draw.confidence
        &&& d.quality_score == draw.quality_score
        &&& d.verified == draw.verified
        &&& d.note_number == draw.note_number
        &&& d.difficulty == draw.difficulty
        &&& d.visibility == draw.visibility
        &&& d.occlusion == draw.occlusion
    }
}

/// Draws the detection record of one annotation and stamps it with the
/// local time.
pub fn generate_option_for_annotation(rng: &mut Sampler) -> (o: AnnotationOption)
    ensures
        is_option_of(o@, option_draw(old(rng).seed, old(rng).position)),
        final(rng).seed == old(rng).seed,
        final(rng).position == option_draw(old(rng).seed, old(rng).position).position,
        is_generated_option(o@),
{
    let confidence: u32 = rng.below(500_000, 1_000_000) as u32;
    let timestamp = local_timestamp();
    let quality_score: u32 = rng.below(600_000, 1_000_000) as u32;
    let verified: bool = rng.chance(7, 10);
    let note_number: u32 = rng.below(1000, 9999) as u32;
    let difficulty = difficulty_of(rng.below(0, 3) as u32);
    let visibility: u32 = rng.below(300_000, 1_000_000) as u32;
    let occlusion: bool = rng.chance(3, 10);
    AnnotationOption::Detection(
        DetectionRecord {
            confidence,
            quality_score,
            verified,
            note_number,
            difficulty,
            visibility,
            occlusion,
            timestamp,
        },
    )
}

/// The box of an annotation.
pub open spec fn box_of(a: AnnotationView) -> BBox {
    BBox { x: a.bbox[0], y: a.bbox[1], width: a.bbox[2], height: a.bbox[3] }
}

/// The annotation has a box of four numbers that lies on the canvas, and
/// polygons of whole vertices all of which the box encloses.
pub open spec fn on_canvas(a: AnnotationView, width: u32, height: u32) -> bool {
    &&& a.bbox.len() == 4
    &&& inside_canvas(box_of(a), width as int, height as int)
    &&& a.segmentation matches Some(polygons) && {
        &&& encloses_all(box_of(a), polygons)
        &&& forall|p: int| 0 <= p < polygons.len() ==> (#[trigger] polygons[p]).len() % 2 == 0
    }
}

/// `a` is an annotation of `shape` under the ids given.
///
/// It carries the category and area of the shape, is no crowd and has no
/// extra fields; it has a generated detection record exactly if options are
/// included. Its first polygon is the outline of the shape. Either that is
/// its only polygon and its box is the box of the shape, or, if
/// multi-polygon segmentation is included, up to three secondary polygons of
/// the shape follow, none overlapping any of the `earlier` shapes, and its
/// box is the bounding box of all its polygons together.
pub open spec fn describes(
    a: AnnotationView,
    shape: Shape,
    id: i64,
    image_id: i64,
    include_option: bool,
    include_multi_polygon: bool,
    width: u32,
    height: u32,
    earlier: Seq<Shape>,
) -> bool {
    &&& a.id == id
    &&& a.image_id == image_id
    &&& a.category_id == shape.category_id
    &&& a.area == shape.area
    &&& a.iscrowd == 0
    &&& a.extra.len() == 0
    &&& if include_option {
        a.option matches Some(o) && is_generated_option(o)
    } else {
        a.option is None
    }
    &&& a.segmentation matches Some(polygons) && {
        &&& 1 <= polygons.len() <= 4
        &&& polygons[0] == shape.segmentation@
        &&& a.bbox.len() == 4
        &&& {
            ||| polygons.len() == 1 && a.bbox == shape.bbox.to_seq()
            ||| {
                &&& include_multi_polygon
                &&& is_combined_box(box_of(a), polygons)
                &&& forall|k: int|
                    1 <= k < polygons.len() ==> is_secondary(
                        #[trigger] polygons[k],
                        shape.bbox,
                        width,
                        height,
                        earlier,
                    )
            }
        }
    }
}

/// Where the sampler stands once the detection record of an annotation is
/// drawn, if one is included.
pub open spec fn option_end(include_option: bool, seed: u64, position: u128) -> u128 {
    if include_option {
        option_draw(seed, position).position
    } else {
        position
    }
}

/// `a` is the annotation of `shape` that the sampler of `seed` at
/// `position` makes.
///
/// Besides what `describes` says: its detection record, if one is
/// included, is the one drawn first. If multi-polygon segmentation is
/// included, the sampler then draws whether secondary polygons are attached,
/// in three cases out of ten; if they are, the polygons are the multi-part
/// segmentation it makes next and the box is their bounding box. In every
/// other case the outline of the shape is the only polygon and the box is
/// the box of the shape.
pub open spec fn annotated(
    a: AnnotationView,
    shape: Shape,
    id: i64,
    image_id: i64,
    include_option: bool,
    include_multi_polygon: bool,
    width: u32,
    height: u32,
    earlier: Seq<Shape>,
    seed: u64,
    position: u128,
) -> bool {
    let after_option = option_end(include_option, seed, position);
    &&& describes(
        a,
        shape,
        id,
        image_id,
        include_option,
        include_multi_polygon,
        width,
        height,
        earlier,
    )
    &&& include_option ==> a.option.is_some() && is_option_of(
        a.option.unwrap(),
        option_draw(seed, position),
    )
    &&& a.segmentation.is_some()
    &&& if include_multi_polygon && ratio_draw(seed, after_option, 3, 10) {
        &&& a.segmentation.unwrap() == multi_polygons(
            seed,
            ratio_end(seed, after_option, 3, 10),
            shape.segmentation@,
            shape.bbox,
            width,
            height,
            earlier,
        ).polygons
        &&& is_combined_box(box_of(a), a.segmentation.unwrap())
    } else {
        &&& a.segmentation.unwrap() == seq![shape.segmentation@]
        &&& a.bbox == shape.bbox.to_seq()
    }
}

/// Where the sampler stands once the annotation of `shape` is made.
pub open spec fn annotate_end(
    shape: Shape,
    include_option: bool,
    include_multi_polygon: bool,
    width: u32,
    height: u32,
    earlier: Seq<Shape>,
    seed: u64,
    position: u128,
) -> u128 {
    let after_option = option_end(include_option, seed, position);
    if !include_multi_polygon {
        after_option
    } else if ratio_draw(seed, after_option, 3, 10) {
        multi_polygons(
            seed,
            ratio_end(seed, after_option, 3, 10),
            shape.segmentation@,
            shape.bbox,
            width,
            height,
            earlier,
        ).position
    } else {
        ratio_end(seed, after_option, 3, 10)
    }
}

/// The coordinates of polygon `p` are those of whole vertices on the
/// canvas.
pub open spec fn polygon_on_canvas(poly: Seq<i64>, width: u32, height: u32) -> bool {
    &&& poly.len() % 2 == 0
    &&& forall|i: int|
        0 <= i < poly.len() ==> 0 <= #[trigger] poly[i] <= (if i % 2 == 0 {
            width as int
        } else {
            height as int
        }) * 1_000_000
}

/// The outline of a well-formed shape on the canvas, and every secondary
/// polygon of it, consist of whole vertices on the canvas.
pub proof fn lemma_polygons_on_canvas(
    polygons: Seq<Seq<i64>>,
    shape: Shape,
    width: u32,
    height: u32,
    earlier: Seq<Shape>,
)
    requires
        shape.well_formed(),
        inside_canvas(shape.bbox, width as int, height as int),
        polygons.len() >= 1,
        polygons[0] == shape.segmentation@,
        forall|k: int|
            1 <= k < polygons.len() ==> is_secondary(
                #[trigger] polygons[k],
                shape.bbox,
                width,
                height,
                earlier,
            ),
    ensures
        forall|p: int|
            0 <= p < polygons.len() ==> polygon_on_canvas(#[trigger] polygons[p], width, height),
{
    assert forall|p: int| 0 <= p < polygons.len() implies polygon_on_canvas(
        #[trigger] polygons[p],
        width,
        height,
    ) by {
        let poly = polygons[p];
        if p == 0 {
            assert forall|i: int| 0 <= i < poly.len() implies 0 <= #[trigger] poly[i] <= (if i % 2
                == 0 {
                width as int
            } else {
                height as int
            }) * 1_000_000 by {
                assert(shape.segmentation@[i] == poly[i]);
            }
        } else {
            assert(is_secondary(polygons[p], shape.bbox, width, height, earlier));
            let (x, y) = choose|x: i64, y: i64| #[trigger]
                secondary_at(poly, x, y, shape.bbox, width, height, earlier);
            assert forall|i: int| 0 <= i < poly.len() implies 0 <= #[trigger] poly[i] <= (if i % 2
                == 0 {
                width as int
            } else {
                height as int
            }) * 1_000_000 by {
                assert(0 <= i < 8);
            }
        }
    }
}

/// Polygons on the canvas have coordinates the combined box can be taken
/// of, and that can be shifted.
pub proof fn lemma_on_canvas_bounded(polygons: Seq<Seq<i64>>, width: u32, height: u32)
    requires
        forall|p: int|
            0 <= p < polygons.len() ==> polygon_on_canvas(#[trigger] polygons[p], width, height),
    ensures
        coords_bounded(polygons),
        forall|p: int, i: int|
            0 <= p < polygons.len() && 0 <= i < polygons[p].len() ==> 0 <= #[trigger] polygons[p][i]
                <= 0x1_0000_0000 * 1_000_000,
{
    assert forall|p: int, i: int| 0 <= p < polygons.len() && 0 <= i < polygons[p].len() implies 0
        <= #[trigger] polygons[p][i] <= 0x1_0000_0000 * 1_000_000 by {
        assert(polygon_on_canvas(polygons[p], width, height));
    }
}

/// The bounding box of polygons on the canvas lies on the canvas.
pub proof fn lemma_combined_on_canvas(b: BBox, polygons: Seq<Seq<i64>>, width: u32, height: u32)
    requires
        is_combined_box(b, polygons),
        forall|p: int|
            0 <= p < polygons.len() ==> polygon_on_canvas(#[trigger] polygons[p], width, height),
    ensures
        inside_canvas(b, width as int, height as int),
{
    let (left_p, left_i) = choose|p: int, i: int|
        is_coord(polygons, p, i) && i % 2 == 0 && #[trigger] polygons[p][i] == b.x as int;
    assert(polygon_on_canvas(polygons[left_p], width, height));
    let (right_p, right_i) = choose|p: int, i: int|
        is_coord(polygons, p, i) && i % 2 == 0 && #[trigger] polygons[p][i] == b.x + b.width;
    assert(polygon_on_canvas(polygons[right_p], width, height));
    let (top_p, top_i) = choose|p: int, i: int|
        is_coord(polygons, p, i) && i % 2 == 1 && #[trigger] polygons[p][i] == b.y as int;
    assert(polygon_on_canvas(polygons[top_p], width, height));
    let (bottom_p, bottom_i) = choose|p: int, i: int|
        is_coord(polygons, p, i) && i % 2 == 1 && #[trigger] polygons[p][i] == b.y + b.height;
    assert(polygon_on_canvas(polygons[bottom_p], width, height));
    assert(b.x <= polygons[left_p][left_i] <= b.x + b.width);
    assert(b.y <= polygons[top_p][top_i] <= b.y + b.height);
}

/// Builds the annotation of `shape`.
///
/// A detection record is drawn if options are included. If multi-polygon
/// segmentation is included, then in three cases out of ten secondary
/// polygons are attached and the box becomes the bounding box of all
/// polygons together.
pub fn annotate(
    shape: &Shape,
    rng: &mut Sampler,
    id: i64,
    image_id: i64,
    include_option: bool,
    include_multi_polygon: bool,
    width: u32,
    height: u32,
    earlier: &[Shape],
) -> (a: COCOAnnotation)
    requires
        shape.well_formed(),
        inside_canvas(shape.bbox, width as int, height as int),
    ensures
        annotated(
            a@,
            *shape,
            id,
            image_id,
            include_option,
            include_multi_polygon,
            width,
            height,
            earlier@,
            old(rng).seed,
            old(rng).position,
        ),
        final(rng).seed == old(rng).seed,
        final(rng).position == annotate_end(
            *shape,
            include_option,
            include_multi_polygon,
            width,
            height,
            earlier@,
            old(rng).seed,
            old(rng).position,
        ),
        describes(
            a@,
            *shape,
            id,
            image_id,
            include_option,
            include_multi_polygon,
            width,
            height,
            earlier@,
        ),
        on_canvas(a@, width, height),
        !include_multi_polygon ==> a@.segmentation.unwrap().len() == 1,
{
    let option = if include_option {
        Some(generate_option_for_annotation(rng))
    } else {
        None
    };
    let extra: Vec<ExtraField> = Vec::new();
    if include_multi_polygon && rng.chance(3, 10) {
        let polygons = generate_multi_polygon_segmentation(shape, rng, width, height, earlier);
        proof {
            let views = polygons_view(polygons@);
            assert(views[0] == shape.segmentation@);
            assert forall|k: int| 1 <= k < views.len() implies is_secondary(
                #[trigger] views[k],
                shape.bbox,
                width,
                height,
                earlier@,
            ) by {
                assert(views[k] == polygons@[k]@);
            }
            lemma_polygons_on_canvas(views, *shape, width, height, earlier@);
            lemma_on_canvas_bounded(views, width, height);
            assert(views[0].len() >= 2);
            assert(has_vertex(views));
        }
        let bbox = calculate_combined_bbox(polygons.as_slice());
        proof {
            let views = polygons_view(polygons@);
            let b = BBox { x: bbox@[0], y: bbox@[1], width: bbox@[2], height: bbox@[3] };
            lemma_combined_on_canvas(b, views, width, height);
        }
        let a = COCOAnnotation {
            id,
            image_id,
            category_id: shape.category_id,
            segmentation: Some(polygons),
            area: shape.area,
            bbox,
            iscrowd: 0,
            option,
            extra,
        };
        assert(a@.extra =~= Seq::empty());
        a
    } else {
        let mut polygons: Vec<Vec<i64>> = Vec::new();
        polygons.push(copy_outline(&shape.segmentation));
        let bbox = shape.bbox.to_vec();
        let a = COCOAnnotation {
            id,
            image_id,
            category_id: shape.category_id,
            segmentation: Some(polygons),
            area: shape.area,
            bbox,
            iscrowd: 0,
            option,
            extra,
        };
        proof {
            assert(a@.extra =~= Seq::empty());
            let views = a@.segmentation.unwrap();
            assert(views[0] == shape.segmentation@);
            assert(views =~= seq![shape.segmentation@]);
            assert(box_of(a@) == shape.bbox);
            assert forall|p: int, i: int| is_coord(views, p, i) implies if i % 2 == 0 {
                shape.bbox.x <= #[trigger] views[p][i] <= shape.bbox.x + shape.bbox.width
            } else {
                shape.bbox.y <= views[p][i] <= shape.bbox.y + shape.bbox.height
            } by {
                assert(views[p][i] == shape.segmentation@[i]);
            }
        }
        a
    }
}

/// A canvas of this size can be allocated and described: its buffer has a
/// length, and each side fits the image record.
pub open spec fn canvas_fits(width: u32, height: u32) -> bool {
    &&& 3 * width * height <= usize::MAX
    &&& width <= i32::MAX
    &&& height <= i32::MAX
}

/// The exec counterpart of `canvas_fits`.
pub fn check_canvas_fits(width: u32, height: u32) -> (r: bool)
    ensures
        r == canvas_fits(width, height),
{
    assert(0 <= 3 * width * height <= 3 * 0xffff_ffff * 0xffff_ffff) by (nonlinear_arith)
        requires
            0 <= width <= 0xffff_ffff,
            0 <= height <= 0xffff_ffff,
    ;
    let bytes: u128 = 3 * (width as u128) * (height as u128);
    bytes <= usize::MAX as u128 && width <= 0x7fff_ffff && height <= 0x7fff_ffff
}

/// The record of image `index` (counting from one) of a run.
pub open spec fn image_entry(settings: Settings, index: u32, license: Option<i32>) -> ImageView {
    ImageView {
        id: index as i64,
        width: settings.width as i32,
        height: settings.height as i32,
        file_name: image_file(settings.base_filename@, settings.num_images, index),
        license,
        flickr_url: None,
        coco_url: None,
        date_captured: None,
        extra: Seq::empty(),
    }
}

/// The canvas, shapes, record and annotations of image `index` of a run are
/// as the settings ask.
///
/// The canvas has the size asked for and is a white canvas with the shapes
/// painted on it in gray, in order. The shapes are at most as many as
/// requested, each acceptable, and no two overlap if overlap is not
/// allowed; they are as many as requested if overlap is allowed and every
/// kind in use has room. The record names
/// the image and one of the two licenses, if licenses are included. There is
/// one annotation for each shape, in order, with ids counting up from
/// `first_id`, and each lies on the canvas.
pub open spec fn image_ok(
    canvas: CanvasView,
    shapes: Seq<Shape>,
    image: ImageView,
    annotations: Seq<AnnotationView>,
    settings: Settings,
    index: u32,
    first_id: int,
) -> bool {
    &&& canvas.wf()
    &&& canvas.width == settings.width
    &&& canvas.height == settings.height
    &&& canvas == painted_all(
        blank_view(settings.width, settings.height),
        shapes,
        ColorPolicy::Gray,
        settings.num_classes,
    )
    &&& shapes.len() <= settings.num_annotations
    &&& forall|j: int|
        0 <= j < shapes.len() ==> acceptable(
            #[trigger] shapes[j],
            settings.num_classes,
            settings.width,
            settings.height,
            settings.max_size,
        )
    &&& !settings.allow_overlap ==> pairwise_disjoint(shapes)
    &&& settings.allow_overlap && 1 <= settings.num_classes <= 10 && all_placeable(
        settings.num_classes,
        settings.width,
        settings.height,
        settings.max_size,
    ) ==> shapes.len() == settings.num_annotations
    &&& image == image_entry(settings, index, image.license)
    &&& if settings.include_licenses {
        image.license == Some(1i32) || image.license == Some(2i32)
    } else {
        image.license is None
    }
    &&& annotations.len() == shapes.len()
    &&& forall|j: int|
        0 <= j < shapes.len() ==> describes(
            #[trigger] annotations[j],
            shapes[j],
            (first_id + j) as i64,
            index as i64,
            settings.include_option,
            settings.include_multi_polygon,
            settings.width,
            settings.height,
            shapes.subrange(0, j),
        ) && on_canvas(annotations[j], settings.width, settings.height)
}

/// What the engine places on an image of a run with these settings when the
/// sampler of `seed` stands at `position`.
pub open spec fn placed_on(settings: Settings, seed: u64, position: u128) -> Placing {
    placement(
        seed,
        position,
        settings.num_classes,
        settings.num_annotations,
        settings.width,
        settings.height,
        settings.max_size,
        settings.allow_overlap,
    )
}

/// The license drawn for an image, one of the two, if licenses are
/// included, and where the sampler stands afterwards.
pub open spec fn license_draw(include_licenses: bool, seed: u64, position: u128) -> (
    Option<i32>,
    u128,
) {
    if include_licenses {
        (Some(range_draw(seed, position, 1, 3) as i32), range_end(seed, position, 1, 3))
    } else {
        (None, position)
    }
}

/// Where the sampler stands when the first `done` of `shapes` are
/// annotated, one after the other, starting at `start`.
pub open spec fn annotating_from(
    settings: Settings,
    shapes: Seq<Shape>,
    seed: u64,
    start: u128,
    done: nat,
) -> u128
    decreases done,
{
    if done == 0 {
        start
    } else {
        annotate_end(
            shapes[done - 1],
            settings.include_option,
            settings.include_multi_polygon,
            settings.width,
            settings.height,
            shapes.subrange(0, done - 1),
            seed,
            annotating_from(settings, shapes, seed, start, (done - 1) as nat),
        )
    }
}

/// Where the sampler stands when the annotating of an image begins: after
/// the placement and the draw of the license.
pub open spec fn annotating_start(settings: Settings, seed: u64, position: u128) -> u128 {
    license_draw(settings.include_licenses, seed, placed_on(settings, seed, position).position).1
}

/// The shapes, record and annotations of an image are what the sampler of
/// `seed` at `position` makes of the settings: the shapes are those the
/// engine places, the license is the one drawn after the placement, and the
/// annotations are those made of the shapes one after the other.
pub open spec fn image_made(
    shapes: Seq<Shape>,
    image: ImageView,
    annotations: Seq<AnnotationView>,
    settings: Settings,
    index: u32,
    first_id: int,
    seed: u64,
    position: u128,
) -> bool {
    let placed = placed_on(settings, seed, position);
    &&& placed_as(shapes, placed.picks)
    &&& image.license == license_draw(settings.include_licenses, seed, placed.position).0
    &&& annotations.len() == shapes.len()
    &&& forall|j: int|
        0 <= j < shapes.len() ==> annotated(
            #[trigger] annotations[j],
            shapes[j],
            (first_id + j) as i64,
            index as i64,
            settings.include_option,
            settings.include_multi_polygon,
            settings.width,
            settings.height,
            shapes.subrange(0, j),
            seed,
            annotating_from(
                settings,
                shapes,
                seed,
                annotating_start(settings, seed, position),
                j as nat,
            ),
        )
}

/// Where the sampler stands when an image with these shapes is made.
pub open spec fn image_end(settings: Settings, shapes: Seq<Shape>, seed: u64, position: u128) -> u128 {
    annotating_from(
        settings,
        shapes,
        seed,
        annotating_start(settings, seed, position),
        shapes.len(),
    )
}

/// One generated image: its canvas, the shapes placed on it, its record and
/// its annotations.
pub struct ImageSample {
    pub canvas: Canvas,
    pub shapes: Vec<Shape>,
    pub image: COCOImage,
    pub annotations: Vec<COCOAnnotation>,
}

/// Generates image `index` (counting from one) of a run: places the shapes
/// on a white canvas, draws the license of the image if licenses are
/// included, and annotates every shape, with ids counting up from
/// `first_id`.
pub fn generate_image(rng: &mut Sampler, settings: &Settings, index: u32, first_id: i64) -> (r:
    ImageSample)
    requires
        canvas_fits(settings.width, settings.height),
        1 <= first_id,
        first_id + settings.num_annotations <= i64::MAX,
    ensures
        image_ok(
            r.canvas@,
            r.shapes@,
            r.image@,
            annotations_view(r.annotations@),
            *settings,
            index,
            first_id as int,
        ),
        image_made(
            r.shapes@,
            r.image@,
            annotations_view(r.annotations@),
            *settings,
            index,
            first_id as int,
            old(rng).seed,
            old(rng).position,
        ),
        final(rng).seed == old(rng).seed,
        final(rng).position == image_end(*settings, r.shapes@, old(rng).seed, old(rng).position),
        r.canvas@.wf(),
{
    let ghost seed = rng.seed;
    let ghost origin = rng.position;
    let width: u32 = settings.width;
    let height: u32 = settings.height;
    let mut canvas = Canvas::blank(width, height);
    let placement = place_shapes(
        rng,
        &mut canvas,
        settings.num_classes,
        settings.num_annotations,
        settings.max_size,
        settings.allow_overlap,
        ColorPolicy::Gray,
    );
    let shapes = placement.shapes;
    let license: Option<i32> = if settings.include_licenses {
        Some(rng.between(1, 2) as i32)
    } else {
        None
    };
    let extra: Vec<ExtraField> = Vec::new();
    let image = COCOImage {
        id: index as i64,
        width: width as i32,
        height: height as i32,
        file_name: image_file_name(&settings.base_filename, settings.num_images, index),
        license,
        flickr_url: None,
        coco_url: None,
        date_captured: None,
        extra,
    };
    assert(image@.extra =~= Seq::empty());
    let ghost start = annotating_start(*settings, seed, origin);
    let mut annotations: Vec<COCOAnnotation> = Vec::new();
    let mut j: usize = 0;
    while j < shapes.len()
        invariant
            j <= shapes@.len() <= settings.num_annotations,
            rng.seed == seed,
            rng.position == annotating_from(*settings, shapes@, seed, start, j as nat),
            forall|i: int|
                0 <= i < j ==> annotated(
                    #[trigger] annotations_view(annotations@)[i],
                    shapes@[i],
                    (first_id + i) as i64,
                    index as i64,
                    settings.include_option,
                    settings.include_multi_polygon,
                    settings.width,
                    settings.height,
                    shapes@.subrange(0, i),
                    seed,
                    annotating_from(*settings, shapes@, seed, start, i as nat),
                ),
            1 <= first_id,
            first_id + settings.num_annotations <= i64::MAX,
            width == settings.width,
            height == settings.height,
            annotations@.len() == j,
            forall|i: int|
                0 <= i < shapes@.len() ==> acceptable(
                    #[trigger] shapes@[i],
                    settings.num_classes,
                    width,
                    height,
                    settings.max_size,
                ),
            forall|i: int|
                0 <= i < j ==> describes(
                    #[trigger] annotations_view(annotations@)[i],
                    shapes@[i],
                    (first_id + i) as i64,
                    index as i64,
                    settings.include_option,
                    settings.include_multi_polygon,
                    width,
                    height,
                    shapes@.subrange(0, i),
                ) && on_canvas(annotations_view(annotations@)[i], width, height),
        decreases shapes@.len() - j,
    {
        let id: i64 = first_id + j as i64;
        let earlier = slice_subrange(shapes.as_slice(), 0, j);
        assert(acceptable(
            shapes@[j as int],
            settings.num_classes,
            width,
            height,
            settings.max_size,
        ));
        let a = annotate(
            &shapes[j],
            rng,
            id,
            index as i64,
            settings.include_option,
            settings.include_multi_polygon,
            width,
            height,
            earlier,
        );
        proof {
            lemma_appended(annotations@, a);
            assert(earlier@ =~= shapes@.subrange(0, j as int));
        }
        annotations.push(a);
        j += 1;
    }
    ImageSample { canvas, shapes, image, annotations }
}

/// The result of a generation run.
pub struct GeneratedSample {
    /// The options the run was made with, defaults and limits applied.
    pub settings: Settings,
    /// The canvas of each image, in order.
    pub canvases: Vec<Canvas>,
    /// The shapes placed on each image, in order of acceptance.
    pub shapes: Vec<Vec<Shape>>,
    /// For each image the position of its first annotation in the dataset,
    /// and after the last image the number of annotations.
    pub offsets: Vec<usize>,
    /// The dataset.
    pub data: COCOData,
    /// The file name for the dataset.
    pub annotation_file: String,
    /// The pair dataset, if one was asked for.
    pub pair: Option<COCOData>,
    /// The file name for the pair dataset.
    pub pair_file: String,
    /// The summary of the run.
    pub message: String,
}

/// Why a run generated nothing.
#[derive(Debug, Clone, Copy, PartialEq, Eq, Structural)]
pub enum GenerateError {
    /// The canvas is too large to allocate or to describe.
    CanvasTooLarge,
    /// The run could produce more pair annotations than ids exist.
    TooManyPairs,
    /// The pair generator failed.
    Pair(PairError),
}

impl GenerateError {
    /// The message of the error.
    pub open spec fn text(self) -> Seq<char> {
        match self {
            GenerateError::CanvasTooLarge => "Failed to create image: canvas is too large"@,
            GenerateError::TooManyPairs => "Failed to generate pair data: too many annotations"@,
            GenerateError::Pair(PairError::CanvasTooSmall) =>
                "Failed to generate pair data: image is too small for additional annotations"@,
        }
    }

    /// Words the error.
    pub fn message(&self) -> (s: String)
        ensures
            s@ == self.text(),
    {
        match self {
            GenerateError::CanvasTooLarge => String::from_str(
                "Failed to create image: canvas is too large",
            ),
            GenerateError::TooManyPairs => String::from_str(
                "Failed to generate pair data: too many annotations",
            ),
            GenerateError::Pair(PairError::CanvasTooSmall) => String::from_str(
                "Failed to generate pair data: image is too small for additional annotations",
            ),
        }
    }
}

/// The number of images `params` asks for.
pub open spec fn image_count_of(params: SampleGeneratorParams) -> u32 {
    at_most(number_or(params.image_count, 1), MAX_IMAGES)
}

/// The most annotations a run with `params` can make: as many as requested
/// on every image.
pub open spec fn requested_total(params: SampleGeneratorParams) -> nat {
    (image_count_of(params) * number_or(params.annotation_count, 10)) as nat
}

/// The run would need a canvas that is too large.
pub open spec fn too_large(params: SampleGeneratorParams) -> bool {
    image_count_of(params) >= 1 && !canvas_fits(params.width, params.height)
}

/// A pair set is asked for, and with every requested annotation placed it
/// could need more ids than exist.
pub open spec fn pairs_overflow(params: SampleGeneratorParams) -> bool {
    switch_or(params.include_pair_json, false) && pair_capacity(
        requested_total(params),
        number_or(params.max_pair_matches, 1),
        (0, 0, 0, number_or(params.pair_additional_ratio, 200_000)),
    ) >= i64::MAX
}

/// A pair set with additional detections is asked for on a canvas too small
/// for them.
pub open spec fn may_cramp(params: SampleGeneratorParams) -> bool {
    &&& switch_or(params.include_pair_json, false)
    &&& number_or(params.pair_additional_ratio, 200_000) > 0
    &&& requested_total(params) > 0
    &&& (params.width <= 150 || params.height <= 150)
}

/// The provenance every generated dataset carries, but for the time of its
/// creation.
pub open spec fn is_generated_info(info: InfoView) -> bool {
    &&& info.description == Some("Sample COCO dataset generated for testing"@)
    &&& info.url is None
    &&& info.version == Some("1.0"@)
    &&& info.year == Some(2024i32)
    &&& info.contributor == Some("COAV"@)
    &&& info.date_created is Some
    &&& info.extra.len() == 0
}

/// Image `i` (counting from zero) of a run is as the settings ask, with its
/// annotations among `annotations` from its offset on and their ids
/// counting up from the offset plus one.
pub open spec fn part_ok(
    canvases: Seq<Canvas>,
    shapes: Seq<Vec<Shape>>,
    images: Seq<COCOImage>,
    offsets: Seq<usize>,
    annotations: Seq<AnnotationView>,
    settings: Settings,
    i: int,
) -> bool {
    let start = offsets[i] as int;
    let end = offsets[i + 1] as int;
    &&& start <= end <= annotations.len()
    &&& image_ok(
        canvases[i]@,
        shapes[i]@,
        images[i]@,
        annotations.subrange(start, end),
        settings,
        (i + 1) as u32,
        start + 1,
    )
}

/// Image `i` of the sample is as its settings ask.
pub open spec fn image_part_ok(sample: GeneratedSample, i: int) -> bool {
    part_ok(
        sample.canvases@,
        sample.shapes@,
        sample.data.images@,
        sample.offsets@,
        sample.data@.annotations,
        sample.settings,
        i,
    )
}

/// An image that is as the settings ask stays so when a further image and
/// its annotations are appended.
proof fn lemma_part_stable(
    canvases: Seq<Canvas>,
    shapes: Seq<Vec<Shape>>,
    images: Seq<COCOImage>,
    offsets: Seq<usize>,
    annotations: Seq<AnnotationView>,
    settings: Settings,
    i: int,
    canvas: Canvas,
    placed: Vec<Shape>,
    image: COCOImage,
    end: usize,
    added: Seq<AnnotationView>,
)
    requires
        0 <= i < canvases.len(),
        canvases.len() == shapes.len(),
        canvases.len() == images.len(),
        offsets.len() == canvases.len() + 1,
        part_ok(canvases, shapes, images, offsets, annotations, settings, i),
    ensures
        part_ok(
            canvases.push(canvas),
            shapes.push(placed),
            images.push(image),
            offsets.push(end),
            annotations + added,
            settings,
            i,
        ),
{
    let start = offsets[i] as int;
    let stop = offsets[i + 1] as int;
    assert((annotations + added).subrange(start, stop) =~= annotations.subrange(start, stop));
}

/// The sample is what a run with these settings writing to `output_dir`
/// yields.
pub open spec fn sample_ok(sample: GeneratedSample, output_dir: Seq<char>) -> bool {
    let settings = sample.settings;
    let n = settings.num_images as int;
    &&& sample.canvases@.len() == n
    &&& sample.shapes@.len() == n
    &&& sample.offsets@.len() == n + 1
    &&& sample.data.images@.len() == n
    &&& sample.offsets@[0] == 0
    &&& sample.data.annotations@.len() == sample.offsets@[n]
    &&& forall|i: int| 0 <= i < n ==> #[trigger] image_part_ok(sample, i)
    &&& numbered(sample.data@.annotations)
    &&& well_keyed(sample.data@)
    &&& sample.data@.categories == catalogue_categories(settings.num_classes)
    &&& sample.data@.licenses == if settings.include_licenses {
        Some(standard_licenses())
    } else {
        None
    }
    &&& sample.data@.info matches Some(info) && is_generated_info(info)
    &&& sample.data@.extra.len() == 0
    &&& sample.annotation_file@ == annotation_file(settings.base_filename@)
    &&& sample.pair_file@ == pair_file(settings.base_filename@)
    &&& sample.message@ == summary(
        output_dir,
        settings.num_images,
        settings.num_classes,
        sample.data.annotations@.len(),
        (settings.num_images * settings.num_annotations) as nat,
    )
    &&& match sample.pair {
        Some(pair) => settings.include_pair_json && pair_of(
            sample.data,
            pair,
            settings.max_pair_matches,
            settings.distribution,
            settings.change_pair_category_names,
        ),
        None => !settings.include_pair_json,
    }
}

/// An annotation on the canvas can be shifted.
pub proof fn lemma_on_canvas_shiftable(a: AnnotationView, width: u32, height: u32)
    requires
        on_canvas(a, width, height),
    ensures
        shiftable(a),
{
    let polygons = a.segmentation.unwrap();
    let b = box_of(a);
    assert forall|p: int, i: int|
        0 <= p < polygons.len() && 0 <= i < polygons[p].len() implies -0x1000_0000_0000_0000
        <= #[trigger] polygons[p][i] <= 0x1000_0000_0000_0000 by {
        assert(polygons[p].len() % 2 == 0);
        assert(is_coord(polygons, p, i));
    }
}

/// The most pair annotations a run can produce grows with the number of
/// originals.
pub proof fn lemma_capacity_monotone(
    fewer: nat,
    more: nat,
    max_pair_matches: u32,
    additional: u32,
)
    requires
        fewer <= more,
    ensures
        pair_capacity(fewer, max_pair_matches, (0, 0, 0, additional)) <= pair_capacity(
            more,
            max_pair_matches,
            (0, 0, 0, additional),
        ),
{
    let cap = match_cap(max_pair_matches);
    assert(fewer * cap <= more * cap) by (nonlinear_arith)
        requires
            fewer <= more,
            cap >= 1,
    ;
    assert(additional * fewer <= additional * more) by (nonlinear_arith)
        requires
            fewer <= more,
            additional >= 0,
    ;
}

/// Where the sampler stands when the first `done` images of a run are
/// made, one after the other, starting at `start`.
pub open spec fn run_position(
    settings: Settings,
    shapes: Seq<Vec<Shape>>,
    seed: u64,
    start: u128,
    done: nat,
) -> u128
    decreases done,
{
    if done == 0 {
        start
    } else {
        image_end(
            settings,
            shapes[done - 1]@,
            seed,
            run_position(settings, shapes, seed, start, (done - 1) as nat),
        )
    }
}

/// Image `i` (counting from zero) of a run is what the sampler of `seed`,
/// having started the run at `start`, makes of the settings.
pub open spec fn part_made(
    shapes: Seq<Vec<Shape>>,
    images: Seq<COCOImage>,
    offsets: Seq<usize>,
    annotations: Seq<AnnotationView>,
    settings: Settings,
    i: int,
    seed: u64,
    start: u128,
) -> bool {
    image_made(
        shapes[i]@,
        images[i]@,
        annotations.subrange(offsets[i] as int, offsets[i + 1] as int),
        settings,
        (i + 1) as u32,
        offsets[i] + 1,
        seed,
        run_position(settings, shapes, seed, start, i as nat),
    )
}

/// Every image of the sample is what the sampler of `seed` makes of the
/// settings of the sample in a run that starts at `position`: the run is a
/// function of the settings, the seed and the position, but for its time
/// stamps.
pub open spec fn sample_made(sample: GeneratedSample, seed: u64, position: u128) -> bool {
    forall|i: int|
        0 <= i < sample.settings.num_images ==> #[trigger] part_made(
            sample.shapes@,
            sample.data.images@,
            sample.offsets@,
            sample.data@.annotations,
            sample.settings,
            i,
            seed,
            position,
        )
}

/// The pair set the sampler of `seed` makes of the dataset of the sample
/// once the images of a run that started at `position` are made, and where
/// the sampler stands afterwards.
pub open spec fn pair_of_run(sample: GeneratedSample, seed: u64, position: u128) -> Matched {
    pair_draw(
        seed,
        run_position(
            sample.settings,
            sample.shapes@,
            seed,
            position,
            sample.settings.num_images as nat,
        ),
        sample.data@.annotations,
        sample.settings.max_pair_matches,
        sample.settings.distribution,
        reference_size(sample.data).0,
        reference_size(sample.data).1,
    )
}

/// The pair dataset of the sample, if it has one, holds the pair set the
/// sampler makes after the images.
pub open spec fn pair_made(sample: GeneratedSample, seed: u64, position: u128) -> bool {
    sample.pair.is_some() ==> sample.pair.unwrap()@.annotations == pair_of_run(
        sample,
        seed,
        position,
    ).entries
}

/// Where the sampler stands at the end of the run: after the images, and
/// after the pair set if one is made.
pub open spec fn run_end(sample: GeneratedSample, seed: u64, position: u128) -> u128 {
    if sample.settings.include_pair_json {
        pair_of_run(sample, seed, position).position
    } else {
        run_position(
            sample.settings,
            sample.shapes@,
            seed,
            position,
            sample.settings.num_images as nat,
        )
    }
}

/// Where the sampler stands after the first images does not depend on the
/// images that follow.
proof fn lemma_run_position_stable(
    settings: Settings,
    shapes: Seq<Vec<Shape>>,
    placed: Vec<Shape>,
    seed: u64,
    start: u128,
    done: nat,
)
    requires
        done <= shapes.len(),
    ensures
        run_position(settings, shapes.push(placed), seed, start, done) == run_position(
            settings,
            shapes,
            seed,
            start,
            done,
        ),
    decreases done,
{
    if done > 0 {
        lemma_run_position_stable(settings, shapes, placed, seed, start, (done - 1) as nat);
        assert(shapes.push(placed)[done - 1] == shapes[done - 1]);
    }
}

/// An image that is what the sampler makes stays so when a further image
/// and its annotations are appended.
proof fn lemma_part_made_stable(
    shapes: Seq<Vec<Shape>>,
    images: Seq<COCOImage>,
    offsets: Seq<usize>,
    annotations: Seq<AnnotationView>,
    settings: Settings,
    i: int,
    seed: u64,
    start: u128,
    placed: Vec<Shape>,
    image: COCOImage,
    end: usize,
    added: Seq<AnnotationView>,
)
    requires
        0 <= i < shapes.len(),
        shapes.len() == images.len(),
        offsets.len() == shapes.len() + 1,
        offsets[i] <= offsets[i + 1] <= annotations.len(),
        part_made(shapes, images, offsets, annotations, settings, i, seed, start),
    ensures
        part_made(
            shapes.push(placed),
            images.push(image),
            offsets.push(end),
            annotations + added,
            settings,
            i,
            seed,
            start,
        ),
{
    let from = offsets[i] as int;
    let to = offsets[i + 1] as int;
    assert((annotations + added).subrange(from, to) =~= annotations.subrange(from, to));
    lemma_run_position_stable(settings, shapes, placed, seed, start, i as nat);
}

/// The values of the concatenation of two lists of annotations.
proof fn lemma_joined(first: Seq<COCOAnnotation>, second: Seq<COCOAnnotation>)
    ensures
        annotations_view(first + second) == annotations_view(first) + annotations_view(second),
        annotations_view(first + second).subrange(
            first.len() as int,
            (first.len() + second.len()) as int,
        ) == annotations_view(second),
        annotations_view(first + second).subrange(0, first.len() as int) == annotations_view(first),
{
    assert(annotations_view(first + second) =~= annotations_view(first) + annotations_view(second));
    assert(annotations_view(first + second).subrange(
        first.len() as int,
        (first.len() + second.len()) as int,
    ) =~= annotations_view(second));
    assert(annotations_view(first + second).subrange(0, first.len() as int) =~= annotations_view(
        first,
    ));
}

/// Runs one generation: resolves the options, generates every image with
/// its shapes and annotations, assembles the dataset, derives the pair
/// dataset if asked for, and words the summary.
///
/// Nothing is written: the canvases, the two datasets and the file names
/// are handed back for the caller to store under `output_dir`.
#[verifier::loop_isolation(false)]
#[verifier::rlimit(80)]
pub fn generate_sample_data(params: &SampleGeneratorParams, rng: &mut Sampler) -> (r: Result<
    GeneratedSample,
    GenerateError,
>)
    ensures
        r == Err::<GeneratedSample, GenerateError>(GenerateError::CanvasTooLarge) <==> too_large(
            *params,
        ),
        r == Err::<GeneratedSample, GenerateError>(GenerateError::TooManyPairs) <==> !too_large(
            *params,
        ) && pairs_overflow(*params),
        r matches Err(GenerateError::Pair(_)) ==> may_cramp(*params),
        !too_large(*params) && !pairs_overflow(*params) && !may_cramp(*params) ==> r is Ok,
        r matches Ok(sample) ==> sample.settings.resolves(*params) && sample_ok(
            sample,
            params.output_dir@,
        ) && sample_made(sample, old(rng).seed, old(rng).position) && pair_made(
            sample,
            old(rng).seed,
            old(rng).position,
        ) && final(rng).position == run_end(sample, old(rng).seed, old(rng).position),
        final(rng).seed == old(rng).seed,
{
    let ghost seed = rng.seed;
    let ghost start = rng.position;
    let settings = resolve(params);
    let width: u32 = settings.width;
    let height: u32 = settings.height;
    let n: u32 = settings.num_images;
    if n >= 1 && !check_canvas_fits(width, height) {
        return Err(GenerateError::CanvasTooLarge);
    }
    assert(0 <= n * settings.num_annotations <= 10 * 0xffff_ffff) by (nonlinear_arith)
        requires
            0 <= n <= 10,
            0 <= settings.num_annotations <= 0xffff_ffff,
    ;
    let requested: u64 = n as u64 * settings.num_annotations as u64;
    if settings.include_pair_json {
        let cap: u128 = if settings.max_pair_matches > 1 {
            settings.max_pair_matches as u128
        } else {
            1
        };
        assert(0 <= requested * cap <= 0xffff_ffff_ffff_ffff * 0xffff_ffff) by (nonlinear_arith)
            requires
                0 <= requested <= 0xffff_ffff_ffff_ffff,
                1 <= cap <= 0xffff_ffff,
        ;
        let capacity: u128 = requested as u128 * cap + bucket_size(
            settings.distribution.3,
            requested,
        );
        if capacity >= 0x7fff_ffff_ffff_ffff {
            return Err(GenerateError::TooManyPairs);
        }
    }
    let categories = make_categories(settings.num_classes);
    let licenses = if settings.include_licenses {
        Some(make_licenses())
    } else {
        None
    };
    let mut canvases: Vec<Canvas> = Vec::new();
    let mut shapes: Vec<Vec<Shape>> = Vec::new();
    let mut offsets: Vec<usize> = Vec::new();
    offsets.push(0);
    let mut images: Vec<COCOImage> = Vec::new();
    let mut annotations: Vec<COCOAnnotation> = Vec::new();
    let mut i: u32 = 0;
    while i < n
        invariant
            i <= n <= MAX_IMAGES,
            canvases@.len() == i,
            shapes@.len() == i,
            images@.len() == i,
            offsets@.len() == i + 1,
            offsets@[0] == 0,
            offsets@[i as int] == annotations@.len(),
            annotations@.len() <= i * settings.num_annotations,
            numbered(annotations_view(annotations@)),
            forall|k: int|
                0 <= k < annotations@.len() ==> on_canvas(
                    #[trigger] annotations_view(annotations@)[k],
                    width,
                    height,
                ) && annotations_view(annotations@)[k].extra.len() == 0,
            forall|k: int|
                0 <= k < i ==> #[trigger] part_ok(
                    canvases@,
                    shapes@,
                    images@,
                    offsets@,
                    annotations_view(annotations@),
                    settings,
                    k,
                ),
            rng.seed == seed,
            rng.position == run_position(settings, shapes@, seed, start, i as nat),
            forall|k: int|
                0 <= k < i ==> #[trigger] part_made(
                    shapes@,
                    images@,
                    offsets@,
                    annotations_view(annotations@),
                    settings,
                    k,
                    seed,
                    start,
                ),
        decreases n - i,
    {
        let ghost before = annotations@;
        let ghost old_offsets = offsets@;
        let ghost old_canvases = canvases@;
        let ghost old_shapes = shapes@;
        let ghost old_images = images@;
        proof {
            assert(i * settings.num_annotations + settings.num_annotations == (i + 1)
                * settings.num_annotations && (i + 1) * settings.num_annotations <= 10
                * 0xffff_ffff) by (nonlinear_arith)
                requires
                    0 <= i < 10,
                    0 <= settings.num_annotations <= 0xffff_ffff,
            ;
        }
        let first_id: i64 = (annotations.len() as u64 + 1) as i64;
        let sample = generate_image(rng, &settings, i + 1, first_id);
        let mut fresh = sample.annotations;
        let ghost added = fresh@;
        proof {
            lemma_joined(before, added);
            assert forall|k: int| 0 <= k < added.len() implies (#[trigger] annotations_view(
                added,
            )[k]).id == before.len() + k + 1 && on_canvas(annotations_view(added)[k], width, height)
                && annotations_view(added)[k].extra.len() == 0 by {}
        }
        annotations.append(&mut fresh);
        offsets.push(annotations.len());
        canvases.push(sample.canvas);
        shapes.push(sample.shapes);
        images.push(sample.image);
        proof {
            let all = annotations_view(annotations@);
            assert(annotations@ == before + added);
            assert forall|k: int| 0 <= k < all.len() implies (#[trigger] all[k]).id == k + 1
                && on_canvas(all[k], width, height) && all[k].extra.len() == 0 by {
                if k < before.len() {
                    assert(all[k] == annotations_view(before)[k]);
                } else {
                    assert(all[k] == annotations_view(added)[k - before.len()]);
                }
            }
            assert(all == annotations_view(before) + annotations_view(added));
            assert forall|k: int| 0 <= k < i + 1 implies #[trigger] part_ok(
                canvases@,
                shapes@,
                images@,
                offsets@,
                all,
                settings,
                k,
            ) by {
                if k < i {
                    lemma_part_stable(
                        old_canvases,
                        old_shapes,
                        old_images,
                        old_offsets,
                        annotations_view(before),
                        settings,
                        k,
                        sample.canvas,
                        sample.shapes,
                        sample.image,
                        offsets@[i + 1],
                        annotations_view(added),
                    );
                    assert(canvases@ == old_canvases.push(sample.canvas));
                    assert(shapes@ == old_shapes.push(sample.shapes));
                    assert(images@ == old_images.push(sample.image));
                    assert(offsets@ == old_offsets.push(offsets@[i + 1]));
                } else {
                    assert(all.subrange(offsets@[k] as int, offsets@[k + 1] as int)
                        == annotations_view(added));
                }
            }
            assert(shapes@ == old_shapes.push(sample.shapes));
            assert(images@ == old_images.push(sample.image));
            assert(offsets@ == old_offsets.push(offsets@[i + 1]));
            lemma_run_position_stable(settings, old_shapes, sample.shapes, seed, start, i as nat);
            assert(shapes@[i as int] == sample.shapes);
            assert forall|k: int| 0 <= k < i + 1 implies #[trigger] part_made(
                shapes@,
                images@,
                offsets@,
                all,
                settings,
                k,
                seed,
                start,
            ) by {
                if k < i {
                    assert(part_ok(
                        old_canvases,
                        old_shapes,
                        old_images,
                        old_offsets,
                        annotations_view(before),
                        settings,
                        k,
                    ));
                    lemma_part_made_stable(
                        old_shapes,
                        old_images,
                        old_offsets,
                        annotations_view(before),
                        settings,
                        k,
                        seed,
                        start,
                        sample.shapes,
                        sample.image,
                        offsets@[i + 1],
                        annotations_view(added),
                    );
                } else {
                    assert(all.subrange(offsets@[k] as int, offsets@[k + 1] as int)
                        == annotations_view(added));
                }
            }
        }
        i += 1;
    }
    let total: usize = annotations.len();
    let extra: Vec<ExtraField> = Vec::new();
    let info_extra: Vec<ExtraField> = Vec::new();
    let info = COCOInfo {
        description: Some(String::from_str("Sample COCO dataset generated for testing")),
        url: None,
        version: Some(String::from_str("1.0")),
        year: Some(2024),
        contributor: Some(String::from_str("COAV")),
        date_created: Some(local_timestamp()),
        extra: info_extra,
    };
    let data = COCOData {
        info: Some(info),
        images,
        annotations,
        categories,
        licenses,
        extra,
    };
    proof {
        assert forall|k: int| 0 <= k < data@.images.len() implies (#[trigger] data@.images[k]).extra.len()
            == 0 by {
            assert(part_ok(
                canvases@,
                shapes@,
                data.images@,
                offsets@,
                annotations_view(data.annotations@),
                settings,
                k,
            ));
        }
        assert(data@.categories == catalogue_categories(settings.num_classes));
        assert forall|k: int| 0 <= k < data@.annotations.len() implies (
        #[trigger] data@.annotations[k]).extra.len() == 0 by {
            assert(data@.annotations[k] == annotations_view(data.annotations@)[k]);
        }
        assert(data@.annotations == annotations_view(data.annotations@));
        assert(data@.licenses == if settings.include_licenses {
            Some(standard_licenses())
        } else {
            None
        }) by {
            if settings.include_licenses {
                assert(data@.licenses.unwrap() =~= standard_licenses());
            }
        }
    }
    let pair = if settings.include_pair_json {
        proof {
            assert forall|k: int| 0 <= k < data.annotations@.len() implies shiftable(
                #[trigger] data.annotations@[k]@,
            ) by {
                assert(data.annotations@[k]@ == annotations_view(data.annotations@)[k]);
                lemma_on_canvas_shiftable(data.annotations@[k]@, width, height);
            }
            assert(total <= requested);
            lemma_capacity_monotone(
                total as nat,
                requested as nat,
                settings.max_pair_matches,
                settings.distribution.3,
            );
        }
        match generate_pair_json(
            &data,
            rng,
            settings.max_pair_matches,
            settings.distribution,
            settings.change_pair_category_names,
        ) {
            Ok(pair) => Some(pair),
            Err(e) => {
                proof {
                    assert(part_ok(
                        canvases@,
                        shapes@,
                        data.images@,
                        offsets@,
                        data@.annotations,
                        settings,
                        0,
                    ));
                    assert(data.images@[0]@.width == width && data.images@[0]@.height == height);
                    assert(settings.distribution.3 > 0) by (nonlinear_arith)
                        requires
                            bucket(settings.distribution.3, total as nat) > 0,
                    ;
                }
                return Err(GenerateError::Pair(e));
            },
        }
    } else {
        None
    };
    let annotation_file = annotation_file_name(&settings.base_filename);
    let pair_file = pair_file_name(&settings.base_filename);
    let message = summary_message(
        &params.output_dir,
        n,
        settings.num_classes,
        total as u64,
        requested,
    );
    let sample = GeneratedSample {
        settings,
        canvases,
        shapes,
        offsets,
        data,
        annotation_file,
        pair,
        pair_file,
        message,
    };
    proof {
        assert forall|k: int| 0 <= k < n implies #[trigger] image_part_ok(sample, k) by {
            assert(part_ok(
                sample.canvases@,
                sample.shapes@,
                sample.data.images@,
                sample.offsets@,
                sample.data@.annotations,
                sample.settings,
                k,
            ));
        }
    }
    Ok(sample)
}

/// Every shape of a generated sample is enclosed by its bounding box, and
/// the box of every annotation encloses every vertex of every polygon of
/// the annotation.
pub proof fn lemma_boxes_enclose(sample: GeneratedSample, output_dir: Seq<char>)
    requires
        sample_ok(sample, output_dir),
    ensures
        forall|i: int, j: int|
            0 <= i < sample.shapes@.len() && 0 <= j < sample.shapes@[i]@.len() ==> (
            #[trigger] sample.shapes@[i]@[j]).well_formed(),
        forall|k: int|
            0 <= k < sample.data@.annotations.len() ==> on_canvas(
                #[trigger] sample.data@.annotations[k],
                sample.settings.width,
                sample.settings.height,
            ),
{
    let settings = sample.settings;
    let n = settings.num_images as int;
    let all = sample.data@.annotations;
    assert forall|i: int, j: int|
        0 <= i < sample.shapes@.len() && 0 <= j < sample.shapes@[i]@.len() implies (
    #[trigger] sample.shapes@[i]@[j]).well_formed() by {
        assert(image_part_ok(sample, i));
        assert(acceptable(
            sample.shapes@[i]@[j],
            settings.num_classes,
            settings.width,
            settings.height,
            settings.max_size,
        ));
    }
    assert forall|k: int| 0 <= k < all.len() implies on_canvas(
        #[trigger] all[k],
        settings.width,
        settings.height,
    ) by {
        let i = lemma_image_of(sample.offsets@, n, k);
        assert(image_part_ok(sample, i));
        let start = sample.offsets@[i] as int;
        let end = sample.offsets@[i + 1] as int;
        assert(all.subrange(start, end)[k - start] == all[k]);
    }
}

/// The image whose annotations include the one at position `k`, among the
/// first `n` images.
proof fn lemma_image_of(offsets: Seq<usize>, n: int, k: int) -> (i: int)
    requires
        0 <= n < offsets.len(),
        offsets[0] == 0,
        0 <= k < offsets[n],
    ensures
        0 <= i < n,
        offsets[i] <= k < offsets[i + 1],
    decreases n,
{
    if n == 0 {
        0
    } else if k >= offsets[n - 1] {
        n - 1
    } else {
        lemma_image_of(offsets, n - 1, k)
    }
}

/// In a sample generated with overlap not allowed, no two shapes of one
/// image have overlapping bounding boxes.
pub proof fn lemma_no_overlap(sample: GeneratedSample, output_dir: Seq<char>)
    requires
        sample_ok(sample, output_dir),
        !sample.settings.allow_overlap,
    ensures
        forall|i: int|
            0 <= i < sample.shapes@.len() ==> pairwise_disjoint((#[trigger] sample.shapes@[i])@),
{
    assert forall|i: int| 0 <= i < sample.shapes@.len() implies pairwise_disjoint(
        (#[trigger] sample.shapes@[i])@,
    ) by {
        assert(image_part_ok(sample, i));
    }
}

/// The annotation ids of a generated sample are strictly increasing across
/// all its images, and so no two annotations share an id.
pub proof fn lemma_ids_increasing(sample: GeneratedSample, output_dir: Seq<char>)
    requires
        sample_ok(sample, output_dir),
    ensures
        forall|k: int, l: int|
            0 <= k < l < sample.data@.annotations.len() ==> (
            #[trigger] sample.data@.annotations[k]).id < (#[trigger] sample.data@.annotations[l]).id,
{
}

} // verus!
