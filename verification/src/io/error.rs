//! The errors of reading and writing packages.
use vstd::prelude::*;

use image::{DynamicImage, ImageError};

verus! {

/// `image::ImageError`: an image could not be decoded or encoded.
#[verifier::external_type_specification]
#[verifier::external_body]
pub struct ExImageError(ImageError);

/// `image::DynamicImage`: a decoded image.
#[verifier::external_type_specification]
#[verifier::external_body]
pub struct ExDynamicImage(DynamicImage);

/// An error while reading or writing a package.
#[derive(Debug)]
pub enum Error {
    /// The package could not be read: the reason.
    ReadError(String),
    /// A thumbnail image could not be decoded or encoded.
    ImageReadError(ImageError),
    /// The package could not be written: the reason.
    WriteError(String),
    /// A thumbnail could not be made: the reason.
    ThumbnailError(String),
}

/// The bytes of the PNG file that `DynamicImage::write_to` encodes an image
/// into, or none when it fails.
pub uninterp spec fn png_encoding(image: DynamicImage) -> Option<Seq<u8>>;

/// Calls `image::load_from_memory`, which guesses the format from the bytes
/// and decodes them. Nothing is stated of the outcome: besides the bytes, it
/// depends on the format-detection and decoding hooks that any code in the
/// process may register with the image crate. The call panics only where the
/// lock of one of those hook tables was poisoned by a panic while a hook was
/// registered; this library registers none.
#[verifier::external_body]
pub(crate) fn load_image(bytes: &[u8]) -> (r: Result<DynamicImage, ImageError>) {
    image::load_from_memory(bytes)
}

/// Calls `DynamicImage::write_to` with an in-memory buffer and the PNG
/// format. Its outcome is a function of the image alone, named
/// `png_encoding`; what the bytes are is left unsaid.
#[verifier::external_body]
pub(crate) fn encode_png(image: &DynamicImage) -> (r: Result<Vec<u8>, ImageError>)
    ensures
        match r {
            Ok(b) => png_encoding(*image) == Some(b@),
            Err(_) => png_encoding(*image) is None,
        },
{
    let mut buf = std::io::Cursor::new(Vec::<u8>::new());
    image.write_to(&mut buf, image::ImageFormat::Png)?;
    Ok(buf.into_inner())
}

/// The thumbnail that loading an image gave, or its error as an image error
/// of this library.
pub fn thumbnail_from_load(loaded: Result<DynamicImage, ImageError>) -> (r: Result<DynamicImage, Error>)
    ensures
        match loaded {
            Ok(img) => r == Ok::<DynamicImage, Error>(img),
            Err(e) => r == Err::<DynamicImage, Error>(Error::ImageReadError(e)),
        },
{
    match loaded {
        Ok(image) => Ok(image),
        Err(e) => Err(Error::ImageReadError(e)),
    }
}

/// Decodes the bytes of a thumbnail with `image::load_from_memory`; when
/// they do not decode, the error is an image error.
pub fn decode_thumbnail(image_bytes: &[u8]) -> (r: Result<DynamicImage, Error>)
    ensures
        r is Err ==> r matches Err(Error::ImageReadError(_)),
{
    thumbnail_from_load(load_image(image_bytes))
}

} // verus!
