//! The configuration of a generation run and what it resolves to.

use crate::models::{
    categories_view, CategoryView, COCOCategory, COCOLicense, ExtraField, LicenseView,
};
use crate::pair::Distribution;
use crate::shape::{ShapeKind, KIND_COUNT};
use crate::text::{decimal, decimal_string};
use vstd::prelude::*;

verus! {

/// The options of a generation run, as the caller gives them. An option
/// left out takes its default. Ratios are in parts per million.
#[derive(Debug)]
pub struct SampleGeneratorParams {
    pub width: u32,
    pub height: u32,
    pub output_dir: String,
    pub image_count: Option<u32>,
    pub class_count: Option<u32>,
    pub annotation_count: Option<u32>,
    pub filename: Option<String>,
    pub max_object_size: Option<u32>,
    pub allow_overlap: Option<bool>,
    pub include_licenses: Option<bool>,
    pub include_option: Option<bool>,
    pub include_multi_polygon: Option<bool>,
    pub include_pair_json: Option<bool>,
    pub change_pair_category_names: Option<bool>,
    pub max_pair_matches: Option<u32>,
    pub pair_perfect_match_ratio: Option<u32>,
    pub pair_partial_match_ratio: Option<u32>,
    pub pair_no_match_ratio: Option<u32>,
    pub pair_additional_ratio: Option<u32>,
}

/// Most images of one run.
pub const MAX_IMAGES: u32 = 10;

/// The options of a run with every default applied and every limit
/// enforced.
#[derive(Debug)]
pub struct Settings {
    pub width: u32,
    pub height: u32,
    pub num_images: u32,
    pub num_classes: u32,
    pub num_annotations: u32,
    pub base_filename: String,
    pub max_size: u32,
    pub allow_overlap: bool,
    pub include_licenses: bool,
    pub include_option: bool,
    pub include_multi_polygon: bool,
    pub include_pair_json: bool,
    pub change_pair_category_names: bool,
    pub max_pair_matches: u32,
    pub distribution: Distribution,
}

/// The value of a number option, with its default.
pub open spec fn number_or(option: Option<u32>, default: u32) -> u32 {
    match option {
        Some(v) => v,
        None => default,
    }
}

/// The value of a switch, with its default.
pub open spec fn switch_or(option: Option<bool>, default: bool) -> bool {
    match option {
        Some(v) => v,
        None => default,
    }
}

/// The smaller of two numbers.
pub open spec fn at_most(v: u32, limit: u32) -> u32 {
    if v <= limit {
        v
    } else {
        limit
    }
}

/// The size budget of a run: the requested size, eighty pixels by default,
/// but no more than half the smaller side of the canvas.
pub open spec fn size_budget(params: SampleGeneratorParams) -> u32 {
    at_most(
        number_or(params.max_object_size, 80),
        (at_most(params.width, params.height) / 2) as u32,
    )
}

impl Settings {
    /// These settings are what `params` resolves to: one image, four
    /// classes, ten annotations, the name "sample", overlap allowed, every
    /// extra switched off, one match per annotation and a quarter perfect,
    /// thirty-five hundredths partial, a fifth missed and a fifth additional
    /// by default; at most ten images and ten classes.
    pub open spec fn resolves(&self, params: SampleGeneratorParams) -> bool {
        &&& self.width == params.width
        &&& self.height == params.height
        &&& self.num_images == at_most(number_or(params.image_count, 1), MAX_IMAGES)
        &&& self.num_classes == at_most(number_or(params.class_count, 4), KIND_COUNT)
        &&& self.num_annotations == number_or(params.annotation_count, 10)
        &&& self.base_filename@ == match params.filename {
            Some(name) => name@,
            None => "sample"@,
        }
        &&& self.max_size == size_budget(params)
        &&& self.allow_overlap == switch_or(params.allow_overlap, true)
        &&& self.include_licenses == switch_or(params.include_licenses, false)
        &&& self.include_option == switch_or(params.include_option, false)
        &&& self.include_multi_polygon == switch_or(params.include_multi_polygon, false)
        &&& self.include_pair_json == switch_or(params.include_pair_json, false)
        &&& self.change_pair_category_names == switch_or(params.change_pair_category_names, false)
        &&& self.max_pair_matches == number_or(params.max_pair_matches, 1)
        &&& self.distribution == (
            number_or(params.pair_perfect_match_ratio, 250_000),
            number_or(params.pair_partial_match_ratio, 350_000),
            number_or(params.pair_no_match_ratio, 200_000),
            number_or(params.pair_additional_ratio, 200_000),
        )
    }
}

fn value_or(option: &Option<u32>, default: u32) -> (v: u32)
    ensures
        v == number_or(*option, default),
{
    match option {
        Some(v) => *v,
        None => default,
    }
}

fn flag_or(option: &Option<bool>, default: bool) -> (v: bool)
    ensures
        v == switch_or(*option, default),
{
    match option {
        Some(v) => *v,
        None => default,
    }
}

fn smaller(v: u32, limit: u32) -> (r: u32)
    ensures
        r == at_most(v, limit),
{
    if v <= limit {
        v
    } else {
        limit
    }
}

/// Applies the defaults and limits to the options of a run.
pub fn resolve(params: &SampleGeneratorParams) -> (s: Settings)
    ensures
        s.resolves(*params),
{
    let base_filename = match &params.filename {
        Some(name) => name.clone(),
        None => String::from_str("sample"),
    };
    Settings {
        width: params.width,
        height: params.height,
        num_images: smaller(value_or(&params.image_count, 1), MAX_IMAGES),
        num_classes: smaller(value_or(&params.class_count, 4), KIND_COUNT),
        num_annotations: value_or(&params.annotation_count, 10),
        base_filename,
        max_size: smaller(
            value_or(&params.max_object_size, 80),
            smaller(params.width, params.height) / 2,
        ),
        allow_overlap: flag_or(&params.allow_overlap, true),
        include_licenses: flag_or(&params.include_licenses, false),
        include_option: flag_or(&params.include_option, false),
        include_multi_polygon: flag_or(&params.include_multi_polygon, false),
        include_pair_json: flag_or(&params.include_pair_json, false),
        change_pair_category_names: flag_or(&params.change_pair_category_names, false),
        max_pair_matches: value_or(&params.max_pair_matches, 1),
        distribution: (
            value_or(&params.pair_perfect_match_ratio, 250_000),
            value_or(&params.pair_partial_match_ratio, 350_000),
            value_or(&params.pair_no_match_ratio, 200_000),
            value_or(&params.pair_additional_ratio, 200_000),
        ),
    }
}

/// The category of a kind: its catalogue position as id, its name, and the
/// common supercategory.
pub open spec fn category_of(kind: ShapeKind) -> CategoryView {
    CategoryView {
        id: kind.ordinal() as i32,
        name: kind.label(),
        supercategory: Some("shape"@),
        extra: Seq::empty(),
    }
}

/// The categories of a run with `num_classes` classes: those of the first
/// `num_classes` kinds of the catalogue, in order.
pub open spec fn catalogue_categories(num_classes: u32) -> Seq<CategoryView> {
    Seq::new(
        at_most(num_classes, KIND_COUNT) as nat,
        |i: int| category_of(ShapeKind::at(i + 1).unwrap()),
    )
}

/// Builds the categories of a run.
pub fn make_categories(num_classes: u32) -> (r: Vec<COCOCategory>)
    ensures
        categories_view(r@) == catalogue_categories(num_classes),
{
    let count: u32 = smaller(num_classes, KIND_COUNT);
    let mut r: Vec<COCOCategory> = Vec::new();
    let mut i: u32 = 0;
    while i < count
        invariant
            i <= count <= KIND_COUNT,
            r@.len() == i,
            forall|j: int|
                0 <= j < i ==> (#[trigger] r@[j])@ == category_of(ShapeKind::at(j + 1).unwrap()),
        decreases count - i,
    {
        let id: i32 = (i + 1) as i32;
        match ShapeKind::from_category(id) {
            Some(kind) => {
                let extra: Vec<ExtraField> = Vec::new();
                let category = COCOCategory {
                    id,
                    name: String::from_str(kind.name()),
                    supercategory: Some(String::from_str("shape")),
                    extra,
                };
                assert(category@.extra =~= Seq::empty());
                r.push(category);
            },
            None => {},
        }
        i += 1;
    }
    assert(categories_view(r@) =~= catalogue_categories(num_classes));
    r
}

/// The two licenses a run attaches when licenses are asked for.
pub open spec fn standard_licenses() -> Seq<LicenseView> {
    seq![
        LicenseView {
            url: Some("http://creativecommons.org/licenses/by/4.0/"@),
            id: 1,
            name: "Attribution License"@,
            extra: Seq::empty(),
        },
        LicenseView {
            url: Some("http://creativecommons.org/licenses/by-nc/4.0/"@),
            id: 2,
            name: "Attribution-NonCommercial License"@,
            extra: Seq::empty(),
        },
    ]
}

/// Builds the two standard licenses.
pub fn make_licenses() -> (r: Vec<COCOLicense>)
    ensures
        r@.len() == 2,
        r@[0]@ == standard_licenses()[0],
        r@[1]@ == standard_licenses()[1],
{
    let mut r: Vec<COCOLicense> = Vec::new();
    let first = COCOLicense {
        url: Some(String::from_str("http://creativecommons.org/licenses/by/4.0/")),
        id: 1,
        name: String::from_str("Attribution License"),
        extra: Vec::new(),
    };
    assert(first@.extra =~= Seq::empty());
    r.push(first);
    let second = COCOLicense {
        url: Some(String::from_str("http://creativecommons.org/licenses/by-nc/4.0/")),
        id: 2,
        name: String::from_str("Attribution-NonCommercial License"),
        extra: Vec::new(),
    };
    assert(second@.extra =~= Seq::empty());
    r.push(second);
    r
}

/// The file name of image `index` (counting from one) of a run of
/// `num_images` images: `{base}-image.png` for a single image, otherwise
/// `{base}-image-{index}.png`.
pub open spec fn image_file(base: Seq<char>, num_images: u32, index: u32) -> Seq<char> {
    if num_images == 1 {
        base + "-image.png"@
    } else {
        base + "-image-"@ + decimal(index as nat) + ".png"@
    }
}

/// The file name of the annotations of a run: `{base}-annotation.json`.
pub open spec fn annotation_file(base: Seq<char>) -> Seq<char> {
    base + "-annotation.json"@
}

/// The file name of the pair annotations of a run: `{base}-pair.json`.
pub open spec fn pair_file(base: Seq<char>) -> Seq<char> {
    base + "-pair.json"@
}

/// Builds the file name of an image.
pub fn image_file_name(base: &String, num_images: u32, index: u32) -> (name: String)
    ensures
        name@ == image_file(base@, num_images, index),
{
    let mut name = base.clone();
    if num_images == 1 {
        name.append("-image.png");
    } else {
        name.append("-image-");
        let digits = decimal_string(index as u64);
        name.append(digits.as_str());
        name.append(".png");
    }
    name
}

/// Builds the file name of the annotations.
pub fn annotation_file_name(base: &String) -> (name: String)
    ensures
        name@ == annotation_file(base@),
{
    let mut name = base.clone();
    name.append("-annotation.json");
    name
}

/// Builds the file name of the pair annotations.
pub fn pair_file_name(base: &String) -> (name: String)
    ensures
        name@ == pair_file(base@),
{
    let mut name = base.clone();
    name.append("-pair.json");
    name
}

/// The summary of a run: where it wrote, how many images and classes it
/// has and how many annotations it made. A run that made fewer annotations
/// than were requested says so in added words; a run that made all of them
/// adds nothing.
pub open spec fn summary(
    output_dir: Seq<char>,
    num_images: u32,
    num_classes: u32,
    total_annotations: nat,
    requested: nat,
) -> Seq<char> {
    "Sample data generated successfully in "@ + output_dir + " with "@ + decimal(
        num_images as nat,
    ) + " images, "@ + decimal(num_classes as nat) + " classes and "@ + decimal(
        total_annotations,
    ) + " total annotations"@ + if total_annotations == requested {
        Seq::<char>::empty()
    } else {
        " (limited by space constraints)"@
    }
}

/// Builds the summary of a run.
pub fn summary_message(
    output_dir: &String,
    num_images: u32,
    num_classes: u32,
    total_annotations: u64,
    requested: u64,
) -> (message: String)
    ensures
        message@ == summary(
            output_dir@,
            num_images,
            num_classes,
            total_annotations as nat,
            requested as nat,
        ),
{
    let mut message = String::from_str("Sample data generated successfully in ");
    message.append(output_dir.as_str());
    message.append(" with ");
    let images = decimal_string(num_images as u64);
    message.append(images.as_str());
    message.append(" images, ");
    let classes = decimal_string(num_classes as u64);
    message.append(classes.as_str());
    message.append(" classes and ");
    let total = decimal_string(total_annotations);
    message.append(total.as_str());
    message.append(" total annotations");
    if total_annotations != requested {
        message.append(" (limited by space constraints)");
    }
    assert(message@ =~= summary(
        output_dir@,
        num_images,
        num_classes,
        total_annotations as nat,
        requested as nat,
    ));
    message
}

} // verus!
