//! What is known of an image file once a folder has been looked through for
//! it.

use crate::models::COCOImage;
use vstd::prelude::*;

verus! {

/// An image of a folder: where it was found, if it was, and what is known
/// of it.
#[derive(Debug, PartialEq, Eq)]
pub struct ImageMetadata {
    pub id: i64,
    pub file_name: String,
    pub file_path: String,
    pub width: i32,
    pub height: i32,
    pub file_size: Option<u64>,
    pub exists: bool,
    pub load_error: Option<String>,
}

/// The value of an image's metadata.
pub struct ImageMetadataView {
    pub id: i64,
    pub file_name: Seq<char>,
    pub file_path: Seq<char>,
    pub width: i32,
    pub height: i32,
    pub file_size: Option<u64>,
    pub exists: bool,
    pub load_error: Option<Seq<char>>,
}

impl View for ImageMetadata {
    type V = ImageMetadataView;

    open spec fn view(&self) -> ImageMetadataView {
        ImageMetadataView {
            id: self.id,
            file_name: self.file_name@,
            file_path: self.file_path@,
            width: self.width,
            height: self.height,
            file_size: self.file_size,
            exists: self.exists,
            load_error: match self.load_error {
                Some(e) => Some(e@),
                None => None,
            },
        }
    }
}

/// What `str::to_lowercase` returns: the lower-case form of a text.
pub uninterp spec fn lowercase(text: Seq<char>) -> Seq<char>;

/// `str::to_lowercase`: the lower-case form of the text, by the Unicode
/// mapping. The result is named, not described.
#[verifier::external_body]
fn to_lowercase(text: &str) -> (r: String)
    ensures
        r@ == lowercase(text@),
{
    text.to_lowercase()
}

/// `extension` is one of the image file extensions that are looked for.
pub open spec fn is_image_extension(extension: Seq<char>) -> bool {
    ||| extension == "jpg"@
    ||| extension == "jpeg"@
    ||| extension == "png"@
    ||| extension == "bmp"@
    ||| extension == "gif"@
    ||| extension == "webp"@
}

/// Whether `extension`, already in lower case, is an image file extension.
pub fn is_known_extension(extension: &String) -> (r: bool)
    ensures
        r == is_image_extension(extension@),
{
    let jpg = String::from_str("jpg");
    let jpeg = String::from_str("jpeg");
    let png = String::from_str("png");
    let bmp = String::from_str("bmp");
    let gif = String::from_str("gif");
    let webp = String::from_str("webp");
    *extension == jpg || *extension == jpeg || *extension == png || *extension == bmp || *extension
        == gif || *extension == webp
}

/// Whether a file with this extension is an image, whatever the case of the
/// extension.
pub fn is_supported_extension(extension: &str) -> (r: bool)
    ensures
        r == is_image_extension(lowercase(extension@)),
{
    let lower = to_lowercase(extension);
    is_known_extension(&lower)
}

/// The metadata of an image file found in a folder that no dataset
/// describes: its size in pixels is not known yet.
pub open spec fn discovered_view(
    id: i64,
    file_name: Seq<char>,
    file_path: Seq<char>,
    file_size: Option<u64>,
) -> ImageMetadataView {
    ImageMetadataView {
        id,
        file_name,
        file_path,
        width: 0,
        height: 0,
        file_size,
        exists: true,
        load_error: None,
    }
}

/// The metadata of an image of a dataset, given where its file was found
/// and how large it is, if it was found at all. An image without a file
/// carries the error that says so.
pub open spec fn located_view(
    id: i64,
    file_name: Seq<char>,
    width: i32,
    height: i32,
    found: Option<(Seq<char>, Option<u64>)>,
) -> ImageMetadataView {
    match found {
        Some((file_path, file_size)) => ImageMetadataView {
            id,
            file_name,
            file_path,
            width,
            height,
            file_size,
            exists: true,
            load_error: None,
        },
        None => ImageMetadataView {
            id,
            file_name,
            file_path: Seq::empty(),
            width,
            height,
            file_size: None,
            exists: false,
            load_error: Some("File not found: "@ + file_name),
        },
    }
}

impl ImageMetadata {
    /// The metadata of an image file found in a folder.
    pub fn discovered(id: i64, file_name: String, file_path: String, file_size: Option<u64>) -> (m:
        ImageMetadata)
        ensures
            m@ == discovered_view(id, file_name@, file_path@, file_size),
    {
        ImageMetadata {
            id,
            file_name,
            file_path,
            width: 0,
            height: 0,
            file_size,
            exists: true,
            load_error: None,
        }
    }

    /// The metadata of an image of a dataset whose file was found at
    /// `file_path`.
    pub fn located(image: &COCOImage, file_path: String, file_size: Option<u64>) -> (m:
        ImageMetadata)
        ensures
            m@ == located_view(
                image.id,
                image.file_name@,
                image.width,
                image.height,
                Some((file_path@, file_size)),
            ),
    {
        ImageMetadata {
            id: image.id,
            file_name: image.file_name.clone(),
            file_path,
            width: image.width,
            height: image.height,
            file_size,
            exists: true,
            load_error: None,
        }
    }

    /// The metadata of an image of a dataset whose file was not found.
    pub fn missing(image: &COCOImage) -> (m: ImageMetadata)
        ensures
            m@ == located_view(image.id, image.file_name@, image.width, image.height, None),
    {
        let mut error = String::from_str("File not found: ");
        error.append(image.file_name.as_str());
        ImageMetadata {
            id: image.id,
            file_name: image.file_name.clone(),
            file_path: String::new(),
            width: image.width,
            height: image.height,
            file_size: None,
            exists: false,
            load_error: Some(error),
        }
    }
}

} // verus!
