//! The image codec: sniffing, decoding and encoding are done by the `image`
//! crate; this module states what the rest of the library relies on.

use vstd::prelude::*;
use crate::format::Format;

verus! {

/// `image::ImageFormat`, the encoding of a source image. Values are handed
/// from the sniffer to the decoder and never looked into.
#[verifier::external_type_specification]
#[verifier::external_body]
pub struct ExImageFormat(image::ImageFormat);

/// `image::DynamicImage`, a decoded picture. Values are handed from the
/// decoder to the encoder and never looked into.
#[verifier::external_type_specification]
#[verifier::external_body]
pub struct ExDynamicImage(image::DynamicImage);

/// `image::ImageError`, the codec's error. The library only tells it from
/// success.
#[verifier::external_type_specification]
#[verifier::external_body]
pub struct ExImageError(image::ImageError);

/// The quality setting handed to the JPEG encoder.
pub const JPEG_QUALITY: u8 = 100;

/// The source encoding that `image::guess_format` reads off the first bytes
/// of an upload, or `None` where it recognises none.
pub uninterp spec fn guessed_format(bytes: Seq<u8>) -> Option<image::ImageFormat>;

/// The picture that `image::load_from_memory_with_format` decodes from an
/// upload read as the given encoding, or `None` where decoding fails.
pub uninterp spec fn decoded_image(bytes: Seq<u8>, source: image::ImageFormat) -> Option<
    image::DynamicImage,
>;

/// The bytes that `image::DynamicImage::write_to` produces for a picture in
/// the target format, or `None` where encoding fails.
pub uninterp spec fn encoded_image(picture: image::DynamicImage, target: Format, quality: u8) -> Option<
    Seq<u8>,
>;

/// Calls `image::guess_format`, which compares the start of `bytes` with a
/// fixed table of signatures. The result depends on `bytes` alone; it is
/// named `guessed_format` and not described further.
#[verifier::external_body]
fn guess_format(bytes: &[u8]) -> (r: Result<image::ImageFormat, image::ImageError>)
    ensures
        match r {
            Ok(source) => guessed_format(bytes@) == Some(source),
            Err(_) => guessed_format(bytes@) is None,
        },
{
    image::guess_format(bytes)
}

/// Calls `image::load_from_memory_with_format`, which runs the decoder of
/// the given encoding over `bytes` under the crate's default limits. The
/// result depends on the two arguments alone; it is named `decoded_image`.
#[verifier::external_body]
fn load_from_memory_with_format(bytes: &[u8], source: image::ImageFormat) -> (r: Result<
    image::DynamicImage,
    image::ImageError,
>)
    ensures
        match r {
            Ok(picture) => decoded_image(bytes@, source) == Some(picture),
            Err(_) => decoded_image(bytes@, source) is None,
        },
{
    image::load_from_memory_with_format(bytes, source)
}

/// Calls `image::DynamicImage::write_to` on an in-memory buffer and returns
/// the buffer. The encoder is the one of the target format; `quality` reaches
/// the JPEG encoder only. The result depends on the arguments alone; it is
/// named `encoded_image`.
#[verifier::external_body]
fn write_to(picture: &image::DynamicImage, target: Format, quality: u8) -> (r: Result<
    Vec<u8>,
    image::ImageError,
>)
    ensures
        match r {
            Ok(out) => encoded_image(*picture, target, quality) == Some(out@),
            Err(_) => encoded_image(*picture, target, quality) is None,
        },
{
    let format = match target {
        Format::PNG => image::ImageOutputFormat::Png,
        Format::JPEG => image::ImageOutputFormat::Jpeg(quality),
        Format::GIF => image::ImageOutputFormat::Gif,
    };
    let mut out = std::io::Cursor::new(Vec::new());
    picture.write_to(&mut out, format).map(|_| out.into_inner())
}

/// Why a single image could not be converted.
#[derive(Clone, Copy, Debug, PartialEq, Eq, Structural)]
pub enum ConvertError {
    /// The source bytes are not a recognised or valid image.
    Decode,
    /// The decoded picture could not be written in the target format.
    Encode,
}

/// What converting an upload to a target format yields.
pub open spec fn converted(bytes: Seq<u8>, target: Format) -> Result<Seq<u8>, ConvertError> {
    match guessed_format(bytes) {
        None => Err(ConvertError::Decode),
        Some(source) => match decoded_image(bytes, source) {
            None => Err(ConvertError::Decode),
            Some(picture) => match encoded_image(picture, target, JPEG_QUALITY) {
                None => Err(ConvertError::Encode),
                Some(out) => Ok(out),
            },
        },
    }
}

/// Converts one image: sniffs the source encoding from the bytes, decodes
/// them, and encodes the picture in the target format.
pub fn convert_image(bytes: &[u8], target: Format) -> (r: Result<Vec<u8>, ConvertError>)
    ensures
        match r {
            Ok(out) => converted(bytes@, target) == Ok::<Seq<u8>, ConvertError>(out@),
            Err(e) => converted(bytes@, target) == Err::<Seq<u8>, ConvertError>(e),
        },
{
    let source = match guess_format(bytes) {
        Ok(source) => source,
        Err(_) => {
            return Err(ConvertError::Decode);
        },
    };
    let picture = match load_from_memory_with_format(bytes, source) {
        Ok(picture) => picture,
        Err(_) => {
            return Err(ConvertError::Decode);
        },
    };
    match write_to(&picture, target, JPEG_QUALITY) {
        Ok(out) => Ok(out),
        Err(_) => Err(ConvertError::Encode),
    }
}

} // verus!
