//! The annotation schema: a COCO-style dataset of images, annotations,
//! categories and licenses.
//!
//! Every entity carries, besides its known fields, the list of fields it was
//! read with that the schema does not know, each as a key and the JSON text
//! of its value, in the order they are to be written.

use crate::geometry::{copy_outline, polygons_view};
use crate::text::{signed_decimal, signed_decimal_string};
use vstd::prelude::*;

verus! {

/// A field the schema does not know: its key and the JSON text of its value.
#[derive(Debug, PartialEq, Eq)]
pub struct ExtraField {
    pub key: String,
    pub value: String,
}

/// The value of a list of extra fields.
pub open spec fn extras_view(extra: Seq<ExtraField>) -> Seq<(Seq<char>, Seq<char>)> {
    Seq::new(extra.len(), |i: int| (extra[i].key@, extra[i].value@))
}

/// The value of an optional text.
pub open spec fn text_view(text: Option<String>) -> Option<Seq<char>> {
    match text {
        Some(s) => Some(s@),
        None => None,
    }
}

/// No key occurs twice in a list of extra fields, as in the object they
/// were read from.
pub open spec fn keys_unique(extra: Seq<(Seq<char>, Seq<char>)>) -> bool {
    forall|i: int, j: int|
        0 <= i < j < extra.len() ==> (#[trigger] extra[i]).0 != (#[trigger] extra[j]).0
}

/// Whether no key occurs twice in a list of extra fields.
pub fn has_unique_keys(extra: &Vec<ExtraField>) -> (r: bool)
    ensures
        r == keys_unique(extras_view(extra@)),
{
    let mut j: usize = 0;
    while j < extra.len()
        invariant
            j <= extra.len(),
            forall|a: int, b: int| 0 <= a < b < j ==> extra@[a].key@ != extra@[b].key@,
        decreases extra.len() - j,
    {
        let mut i: usize = 0;
        while i < j
            invariant
                i <= j < extra.len(),
                forall|a: int| 0 <= a < i ==> extra@[a].key@ != extra@[j as int].key@,
            decreases j - i,
        {
            if extra[i].key == extra[j].key {
                assert(extras_view(extra@)[i as int].0 == extras_view(extra@)[j as int].0);
                return false;
            }
            i += 1;
        }
        j += 1;
    }
    assert forall|a: int, b: int| 0 <= a < b < extra@.len() implies (#[trigger] extras_view(
        extra@,
    )[a]).0 != (#[trigger] extras_view(extra@)[b]).0 by {
        assert(extra@[a].key@ != extra@[b].key@);
    }
    true
}

/// A copy of a list of extra fields.
pub fn copy_extras(extra: &Vec<ExtraField>) -> (r: Vec<ExtraField>)
    ensures
        extras_view(r@) == extras_view(extra@),
{
    let mut r: Vec<ExtraField> = Vec::new();
    let mut i: usize = 0;
    while i < extra.len()
        invariant
            i <= extra.len(),
            r@.len() == i,
            forall|j: int|
                0 <= j < i ==> (#[trigger] r@[j]).key@ == extra@[j].key@ && r@[j].value@
                    == extra@[j].value@,
        decreases extra.len() - i,
    {
        r.push(ExtraField { key: extra[i].key.clone(), value: extra[i].value.clone() });
        i += 1;
    }
    assert(extras_view(r@) =~= extras_view(extra@));
    r
}

/// A copy of an optional text.
pub fn copy_text(text: &Option<String>) -> (r: Option<String>)
    ensures
        text_view(r) == text_view(*text),
{
    match text {
        Some(s) => Some(s.clone()),
        None => None,
    }
}

/// A copy of a list of polygons.
pub fn copy_polygons(polygons: &Vec<Vec<i64>>) -> (r: Vec<Vec<i64>>)
    ensures
        polygons_view(r@) == polygons_view(polygons@),
{
    let mut r: Vec<Vec<i64>> = Vec::new();
    let mut i: usize = 0;
    while i < polygons.len()
        invariant
            i <= polygons.len(),
            r@.len() == i,
            forall|j: int| 0 <= j < i ==> (#[trigger] r@[j])@ == polygons@[j]@,
        decreases polygons.len() - i,
    {
        r.push(copy_outline(&polygons[i]));
        i += 1;
    }
    assert(polygons_view(r@) =~= polygons_view(polygons@));
    r
}

/// Free-text provenance of a dataset.
#[derive(Debug, PartialEq, Eq)]
pub struct COCOInfo {
    pub description: Option<String>,
    pub url: Option<String>,
    pub version: Option<String>,
    pub year: Option<i32>,
    pub contributor: Option<String>,
    pub date_created: Option<String>,
    pub extra: Vec<ExtraField>,
}

/// The value of a dataset's provenance.
pub struct InfoView {
    pub description: Option<Seq<char>>,
    pub url: Option<Seq<char>>,
    pub version: Option<Seq<char>>,
    pub year: Option<i32>,
    pub contributor: Option<Seq<char>>,
    pub date_created: Option<Seq<char>>,
    pub extra: Seq<(Seq<char>, Seq<char>)>,
}

impl View for COCOInfo {
    type V = InfoView;

    open spec fn view(&self) -> InfoView {
        InfoView {
            description: text_view(self.description),
            url: text_view(self.url),
            version: text_view(self.version),
            year: self.year,
            contributor: text_view(self.contributor),
            date_created: text_view(self.date_created),
            extra: extras_view(self.extra@),
        }
    }
}

impl COCOInfo {
    /// A field-for-field copy.
    pub fn duplicate(&self) -> (r: COCOInfo)
        ensures
            r@ == self@,
    {
        COCOInfo {
            description: copy_text(&self.description),
            url: copy_text(&self.url),
            version: copy_text(&self.version),
            year: self.year,
            contributor: copy_text(&self.contributor),
            date_created: copy_text(&self.date_created),
            extra: copy_extras(&self.extra),
        }
    }
}

/// A license under which images are published.
#[derive(Debug, PartialEq, Eq)]
pub struct COCOLicense {
    pub url: Option<String>,
    pub id: i32,
    pub name: String,
    pub extra: Vec<ExtraField>,
}

/// The value of a license.
pub struct LicenseView {
    pub url: Option<Seq<char>>,
    pub id: i32,
    pub name: Seq<char>,
    pub extra: Seq<(Seq<char>, Seq<char>)>,
}

impl View for COCOLicense {
    type V = LicenseView;

    open spec fn view(&self) -> LicenseView {
        LicenseView {
            url: text_view(self.url),
            id: self.id,
            name: self.name@,
            extra: extras_view(self.extra@),
        }
    }
}

impl COCOLicense {
    /// A field-for-field copy.
    pub fn duplicate(&self) -> (r: COCOLicense)
        ensures
            r@ == self@,
    {
        COCOLicense {
            url: copy_text(&self.url),
            id: self.id,
            name: self.name.clone(),
            extra: copy_extras(&self.extra),
        }
    }
}

/// One image of a dataset.
#[derive(Debug, PartialEq, Eq)]
pub struct COCOImage {
    pub id: i64,
    pub width: i32,
    pub height: i32,
    pub file_name: String,
    pub license: Option<i32>,
    pub flickr_url: Option<String>,
    pub coco_url: Option<String>,
    pub date_captured: Option<String>,
    pub extra: Vec<ExtraField>,
}

/// The value of an image record.
pub struct ImageView {
    pub id: i64,
    pub width: i32,
    pub height: i32,
    pub file_name: Seq<char>,
    pub license: Option<i32>,
    pub flickr_url: Option<Seq<char>>,
    pub coco_url: Option<Seq<char>>,
    pub date_captured: Option<Seq<char>>,
    pub extra: Seq<(Seq<char>, Seq<char>)>,
}

impl View for COCOImage {
    type V = ImageView;

    open spec fn view(&self) -> ImageView {
        ImageView {
            id: self.id,
            width: self.width,
            height: self.height,
            file_name: self.file_name@,
            license: self.license,
            flickr_url: text_view(self.flickr_url),
            coco_url: text_view(self.coco_url),
            date_captured: text_view(self.date_captured),
            extra: extras_view(self.extra@),
        }
    }
}

impl COCOImage {
    /// A field-for-field copy.
    pub fn duplicate(&self) -> (r: COCOImage)
        ensures
            r@ == self@,
    {
        COCOImage {
            id: self.id,
            width: self.width,
            height: self.height,
            file_name: self.file_name.clone(),
            license: self.license,
            flickr_url: copy_text(&self.flickr_url),
            coco_url: copy_text(&self.coco_url),
            date_captured: copy_text(&self.date_captured),
            extra: copy_extras(&self.extra),
        }
    }
}

/// How hard an object is to detect.
#[derive(Debug, Clone, Copy, PartialEq, Eq, Structural)]
pub enum Difficulty {
    Easy,
    Medium,
    Hard,
}

/// The detection record attached to a generated annotation. Scores are in
/// millionths.
#[derive(Debug, PartialEq, Eq)]
pub struct DetectionRecord {
    pub confidence: u32,
    pub quality_score: u32,
    pub verified: bool,
    pub note_number: u32,
    pub difficulty: Difficulty,
    pub visibility: u32,
    pub occlusion: bool,
    pub timestamp: String,
}

/// The value of a detection record.
pub struct DetectionView {
    pub confidence: u32,
    pub quality_score: u32,
    pub verified: bool,
    pub note_number: u32,
    pub difficulty: Difficulty,
    pub visibility: u32,
    pub occlusion: bool,
    pub timestamp: Seq<char>,
}

impl View for DetectionRecord {
    type V = DetectionView;

    open spec fn view(&self) -> DetectionView {
        DetectionView {
            confidence: self.confidence,
            quality_score: self.quality_score,
            verified: self.verified,
            note_number: self.note_number,
            difficulty: self.difficulty,
            visibility: self.visibility,
            occlusion: self.occlusion,
            timestamp: self.timestamp@,
        }
    }
}

/// The free-form payload of an annotation: the detection record of a
/// generated annotation, or the JSON text of a payload read from elsewhere.
#[derive(Debug, PartialEq, Eq)]
pub enum AnnotationOption {
    Detection(DetectionRecord),
    Raw(String),
}

/// The value of a payload.
pub enum OptionView {
    Detection(DetectionView),
    Raw(Seq<char>),
}

impl View for AnnotationOption {
    type V = OptionView;

    open spec fn view(&self) -> OptionView {
        match self {
            AnnotationOption::Detection(d) => OptionView::Detection(d@),
            AnnotationOption::Raw(s) => OptionView::Raw(s@),
        }
    }
}

/// The value of an optional payload.
pub open spec fn option_view(option: Option<AnnotationOption>) -> Option<OptionView> {
    match option {
        Some(o) => Some(o@),
        None => None,
    }
}

/// The value of optional polygons.
pub open spec fn segmentation_view(segmentation: Option<Vec<Vec<i64>>>) -> Option<Seq<Seq<i64>>> {
    match segmentation {
        Some(p) => Some(polygons_view(p@)),
        None => None,
    }
}

impl AnnotationOption {
    /// A field-for-field copy.
    pub fn duplicate(&self) -> (r: AnnotationOption)
        ensures
            r@ == self@,
    {
        match self {
            AnnotationOption::Detection(d) => AnnotationOption::Detection(
                DetectionRecord {
                    confidence: d.confidence,
                    quality_score: d.quality_score,
                    verified: d.verified,
                    note_number: d.note_number,
                    difficulty: d.difficulty,
                    visibility: d.visibility,
                    occlusion: d.occlusion,
                    timestamp: d.timestamp.clone(),
                },
            ),
            AnnotationOption::Raw(s) => AnnotationOption::Raw(s.clone()),
        }
    }
}

/// One annotated object: its polygons, bounding box `[x, y, width, height]`
/// and area, in coordinate units and square coordinate units.
#[derive(Debug, PartialEq, Eq)]
pub struct COCOAnnotation {
    pub id: i64,
    pub image_id: i64,
    pub category_id: i32,
    pub segmentation: Option<Vec<Vec<i64>>>,
    pub area: i128,
    pub bbox: Vec<i64>,
    pub iscrowd: i32,
    pub option: Option<AnnotationOption>,
    pub extra: Vec<ExtraField>,
}

/// The value of an annotation.
pub struct AnnotationView {
    pub id: i64,
    pub image_id: i64,
    pub category_id: i32,
    pub segmentation: Option<Seq<Seq<i64>>>,
    pub area: i128,
    pub bbox: Seq<i64>,
    pub iscrowd: i32,
    pub option: Option<OptionView>,
    pub extra: Seq<(Seq<char>, Seq<char>)>,
}

impl View for COCOAnnotation {
    type V = AnnotationView;

    open spec fn view(&self) -> AnnotationView {
        AnnotationView {
            id: self.id,
            image_id: self.image_id,
            category_id: self.category_id,
            segmentation: segmentation_view(self.segmentation),
            area: self.area,
            bbox: self.bbox@,
            iscrowd: self.iscrowd,
            option: option_view(self.option),
            extra: extras_view(self.extra@),
        }
    }
}

impl COCOAnnotation {
    /// A field-for-field copy.
    pub fn duplicate(&self) -> (r: COCOAnnotation)
        ensures
            r@ == self@,
    {
        COCOAnnotation {
            id: self.id,
            image_id: self.image_id,
            category_id: self.category_id,
            segmentation: match &self.segmentation {
                Some(p) => Some(copy_polygons(p)),
                None => None,
            },
            area: self.area,
            bbox: copy_outline(&self.bbox),
            iscrowd: self.iscrowd,
            option: match &self.option {
                Some(o) => Some(o.duplicate()),
                None => None,
            },
            extra: copy_extras(&self.extra),
        }
    }
}

/// One category of objects.
#[derive(Debug, PartialEq, Eq)]
pub struct COCOCategory {
    pub id: i32,
    pub name: String,
    pub supercategory: Option<String>,
    pub extra: Vec<ExtraField>,
}

/// The value of a category.
pub struct CategoryView {
    pub id: i32,
    pub name: Seq<char>,
    pub supercategory: Option<Seq<char>>,
    pub extra: Seq<(Seq<char>, Seq<char>)>,
}

impl View for COCOCategory {
    type V = CategoryView;

    open spec fn view(&self) -> CategoryView {
        CategoryView {
            id: self.id,
            name: self.name@,
            supercategory: text_view(self.supercategory),
            extra: extras_view(self.extra@),
        }
    }
}

impl COCOCategory {
    /// A field-for-field copy.
    pub fn duplicate(&self) -> (r: COCOCategory)
        ensures
            r@ == self@,
    {
        COCOCategory {
            id: self.id,
            name: self.name.clone(),
            supercategory: copy_text(&self.supercategory),
            extra: copy_extras(&self.extra),
        }
    }
}

/// A whole dataset.
#[derive(Debug, PartialEq, Eq)]
pub struct COCOData {
    pub info: Option<COCOInfo>,
    pub images: Vec<COCOImage>,
    pub annotations: Vec<COCOAnnotation>,
    pub categories: Vec<COCOCategory>,
    pub licenses: Option<Vec<COCOLicense>>,
    pub extra: Vec<ExtraField>,
}

/// The values of a list of images.
pub open spec fn images_view(images: Seq<COCOImage>) -> Seq<ImageView> {
    Seq::new(images.len(), |i: int| images[i]@)
}

/// The values of a list of annotations.
pub open spec fn annotations_view(annotations: Seq<COCOAnnotation>) -> Seq<AnnotationView> {
    Seq::new(annotations.len(), |i: int| annotations[i]@)
}

/// The values of a list of categories.
pub open spec fn categories_view(categories: Seq<COCOCategory>) -> Seq<CategoryView> {
    Seq::new(categories.len(), |i: int| categories[i]@)
}

/// The values of an optional list of licenses.
pub open spec fn licenses_view(licenses: Option<Vec<COCOLicense>>) -> Option<Seq<LicenseView>> {
    match licenses {
        Some(l) => Some(Seq::new(l@.len(), |i: int| l@[i]@)),
        None => None,
    }
}

/// The value of optional provenance.
pub open spec fn info_view(info: Option<COCOInfo>) -> Option<InfoView> {
    match info {
        Some(i) => Some(i@),
        None => None,
    }
}

/// No key occurs twice in any list of extra fields of the annotations.
pub open spec fn annotations_keyed(annotations: Seq<AnnotationView>) -> bool {
    forall|i: int| 0 <= i < annotations.len() ==> keys_unique((#[trigger] annotations[i]).extra)
}

/// No key occurs twice in any list of extra fields of the dataset: not in
/// its own, nor in that of its provenance, of an image, an annotation, a
/// category or a license.
pub open spec fn well_keyed(data: DataView) -> bool {
    &&& keys_unique(data.extra)
    &&& data.info.is_some() ==> keys_unique(data.info.unwrap().extra)
    &&& forall|i: int| 0 <= i < data.images.len() ==> keys_unique((#[trigger] data.images[i]).extra)
    &&& annotations_keyed(data.annotations)
    &&& forall|i: int|
        0 <= i < data.categories.len() ==> keys_unique((#[trigger] data.categories[i]).extra)
    &&& data.licenses.is_some() ==> forall|i: int|
        0 <= i < data.licenses.unwrap().len() ==> keys_unique(
            (#[trigger] data.licenses.unwrap()[i]).extra,
        )
}

/// The value of a dataset.
pub struct DataView {
    pub info: Option<InfoView>,
    pub images: Seq<ImageView>,
    pub annotations: Seq<AnnotationView>,
    pub categories: Seq<CategoryView>,
    pub licenses: Option<Seq<LicenseView>>,
    pub extra: Seq<(Seq<char>, Seq<char>)>,
}

impl View for COCOData {
    type V = DataView;

    open spec fn view(&self) -> DataView {
        DataView {
            info: info_view(self.info),
            images: images_view(self.images@),
            annotations: annotations_view(self.annotations@),
            categories: categories_view(self.categories@),
            licenses: licenses_view(self.licenses),
            extra: extras_view(self.extra@),
        }
    }
}

/// A copy of a list of images.
pub fn copy_images(images: &Vec<COCOImage>) -> (r: Vec<COCOImage>)
    ensures
        images_view(r@) == images_view(images@),
{
    let mut r: Vec<COCOImage> = Vec::new();
    let mut i: usize = 0;
    while i < images.len()
        invariant
            i <= images.len(),
            r@.len() == i,
            forall|j: int| 0 <= j < i ==> (#[trigger] r@[j])@ == images@[j]@,
        decreases images.len() - i,
    {
        r.push(images[i].duplicate());
        i += 1;
    }
    assert(images_view(r@) =~= images_view(images@));
    r
}

/// A copy of a list of categories.
pub fn copy_categories(categories: &Vec<COCOCategory>) -> (r: Vec<COCOCategory>)
    ensures
        categories_view(r@) == categories_view(categories@),
{
    let mut r: Vec<COCOCategory> = Vec::new();
    let mut i: usize = 0;
    while i < categories.len()
        invariant
            i <= categories.len(),
            r@.len() == i,
            forall|j: int| 0 <= j < i ==> (#[trigger] r@[j])@ == categories@[j]@,
        decreases categories.len() - i,
    {
        r.push(categories[i].duplicate());
        i += 1;
    }
    assert(categories_view(r@) =~= categories_view(categories@));
    r
}

/// A copy of an optional list of licenses.
pub fn copy_licenses(licenses: &Option<Vec<COCOLicense>>) -> (r: Option<Vec<COCOLicense>>)
    ensures
        licenses_view(r) == licenses_view(*licenses),
{
    match licenses {
        None => None,
        Some(list) => {
            let mut r: Vec<COCOLicense> = Vec::new();
            let mut i: usize = 0;
            while i < list.len()
                invariant
                    i <= list.len(),
                    r@.len() == i,
                    forall|j: int| 0 <= j < i ==> (#[trigger] r@[j])@ == list@[j]@,
                decreases list.len() - i,
            {
                r.push(list[i].duplicate());
                i += 1;
            }
            let copied = Some(r);
            assert(licenses_view(copied).unwrap() =~= licenses_view(*licenses).unwrap());
            copied
        },
    }
}

/// Why a dataset is not valid.
#[derive(Debug, Clone, Copy, PartialEq, Eq, Structural)]
pub enum ValidationError {
    /// The dataset has no image.
    NoImages,
    /// The dataset has no category.
    NoCategories,
    /// The annotation with this id has a bounding box that is not a list of
    /// four numbers.
    InvalidBbox(i64),
}

impl ValidationError {
    /// The message of the error.
    pub open spec fn text(self) -> Seq<char> {
        match self {
            ValidationError::NoImages => "No images found in COCO data"@,
            ValidationError::NoCategories => "No categories found in COCO data"@,
            ValidationError::InvalidBbox(id) => "Invalid bbox format for annotation "@
                + signed_decimal(id as int),
        }
    }

    /// Words the error.
    pub fn message(&self) -> (s: String)
        ensures
            s@ == self.text(),
    {
        match self {
            ValidationError::NoImages => String::from_str("No images found in COCO data"),
            ValidationError::NoCategories => String::from_str("No categories found in COCO data"),
            ValidationError::InvalidBbox(id) => {
                let mut s = String::from_str("Invalid bbox format for annotation ");
                let digits = signed_decimal_string(*id);
                s.append(digits.as_str());
                s
            },
        }
    }
}

/// Annotation `i` is the first whose bounding box is not a list of four
/// numbers.
pub open spec fn first_invalid_at(annotations: Seq<COCOAnnotation>, i: int) -> bool {
    &&& 0 <= i < annotations.len()
    &&& annotations[i].bbox@.len() != 4
    &&& forall|j: int| 0 <= j < i ==> (#[trigger] annotations[j]).bbox@.len() == 4
}

/// The first annotation whose bounding box is not a list of four numbers
/// exists and has the id `id`.
pub open spec fn first_invalid_has_id(annotations: Seq<COCOAnnotation>, id: i64) -> bool {
    exists|i: int| #[trigger] first_invalid_at(annotations, i) && annotations[i].id == id
}

impl COCOData {
    /// `r` is the verdict on the dataset: it needs an image and a category,
    /// and every bounding box must be a list of four numbers. The first
    /// failing check in this order decides, and among the annotations the
    /// first offender is reported.
    pub open spec fn verdict(&self, r: Result<(), ValidationError>) -> bool {
        match r {
            Err(ValidationError::NoImages) => self.images@.len() == 0,
            Err(ValidationError::NoCategories) => self.images@.len() > 0 && self.categories@.len()
                == 0,
            Err(ValidationError::InvalidBbox(id)) => {
                &&& self.images@.len() > 0
                &&& self.categories@.len() > 0
                &&& first_invalid_has_id(self.annotations@, id)
            },
            Ok(()) => {
                &&& self.images@.len() > 0
                &&& self.categories@.len() > 0
                &&& forall|j: int|
                    0 <= j < self.annotations@.len() ==> (#[trigger] self.annotations@[j]).bbox@.len()
                        == 4
            },
        }
    }

    /// Checks that the dataset can be displayed.
    pub fn validate(&self) -> (r: Result<(), ValidationError>)
        ensures
            self.verdict(r),
    {
        if self.images.len() == 0 {
            return Err(ValidationError::NoImages);
        }
        if self.categories.len() == 0 {
            return Err(ValidationError::NoCategories);
        }
        let mut i: usize = 0;
        while i < self.annotations.len()
            invariant
                i <= self.annotations.len(),
                self.images@.len() > 0,
                self.categories@.len() > 0,
                forall|j: int| 0 <= j < i ==> (#[trigger] self.annotations@[j]).bbox@.len() == 4,
            decreases self.annotations.len() - i,
        {
            if self.annotations[i].bbox.len() != 4 {
                assert(first_invalid_at(self.annotations@, i as int));
                assert(first_invalid_has_id(self.annotations@, self.annotations@[i as int].id));
                return Err(ValidationError::InvalidBbox(self.annotations[i].id));
            }
            i += 1;
        }
        Ok(())
    }
}

/// A dataset has exactly one verdict.
pub proof fn lemma_verdict_unique(
    data: COCOData,
    a: Result<(), ValidationError>,
    b: Result<(), ValidationError>,
)
    requires
        data.verdict(a),
        data.verdict(b),
    ensures
        a == b,
{
    let anns = data.annotations@;
    match a {
        Ok(u) => {
            match b {
                Ok(v) => {
                    assert(u == v);
                    assert(a == b);
                },
                Err(ValidationError::InvalidBbox(y)) => {
                    let k = choose|k: int| #[trigger] first_invalid_at(anns, k) && anns[k].id == y;
                    assert(anns[k].bbox@.len() != 4);
                    assert(false);
                },
                Err(ValidationError::NoImages) => {
                    assert(false);
                },
                Err(ValidationError::NoCategories) => {
                    assert(false);
                },
            }
        },
        Err(ValidationError::InvalidBbox(x)) => {
            let i = choose|i: int| #[trigger] first_invalid_at(anns, i) && anns[i].id == x;
            assert(anns[i].bbox@.len() != 4);
            match b {
                Err(ValidationError::InvalidBbox(y)) => {
                    let k = choose|k: int| #[trigger] first_invalid_at(anns, k) && anns[k].id == y;
                    if i < k {
                        assert(anns[i].bbox@.len() == 4);
                    }
                    if k < i {
                        assert(anns[k].bbox@.len() == 4);
                    }
                    assert(x == y);
                    assert(a == b);
                },
                Ok(_) => {
                    assert(false);
                },
                Err(ValidationError::NoImages) => {
                    assert(false);
                },
                Err(ValidationError::NoCategories) => {
                    assert(false);
                },
            }
        },
        Err(ValidationError::NoImages) => {
            assert(b == Err::<(), ValidationError>(ValidationError::NoImages));
        },
        Err(ValidationError::NoCategories) => {
            assert(b == Err::<(), ValidationError>(ValidationError::NoCategories));
        },
    }
}

} // verus!
