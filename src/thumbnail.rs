//! Turning the bytes of one resize target into the bytes of its thumbnail,
//! and the key under which the thumbnail is stored.
use vstd::prelude::*;
use crate::keys::{equal_chars, expected_key_of, expected_thumbnail_key, extension_of, lower_of, raw_extension_of, KeyError};
use crate::selection::InputEvent;
use crate::text::chars_of;
use image::{DynamicImage, ImageError};

verus! {

#[verifier::external_type_specification]
#[verifier::external_body]
pub struct ExDynamicImage(DynamicImage);

#[verifier::external_type_specification]
#[verifier::external_body]
pub struct ExImageError(ImageError);

/// The encodings a thumbnail can be written in.
#[derive(Debug, Clone, Copy, PartialEq, Eq, Structural)]
pub enum ThumbFormat {
    Png,
    Jpeg,
}

/// Why one resize target yielded no thumbnail.
#[derive(Debug, Clone, Copy, PartialEq, Eq, Structural)]
pub enum ThumbnailError {
    /// The key has no identifier segment to form the thumbnail key from.
    MalformedKey,
    /// The source object could not be fetched.
    FetchError,
    /// The source bytes are no image that can be decoded.
    DecodeError,
    /// The extension of the key names no encoding a thumbnail can have.
    UnsupportedFormat,
    /// The resized image could not be encoded.
    EncodeError,
    /// The thumbnail could not be stored.
    StoreError,
}

/// The encoding a lowercased extension names: `png` for PNG, `jpg` and
/// `jpeg` for JPEG.
pub open spec fn format_for(ext: Seq<char>) -> Option<ThumbFormat> {
    if ext == seq!['p', 'n', 'g'] {
        Some(ThumbFormat::Png)
    } else if ext == seq!['j', 'p', 'g'] || ext == seq!['j', 'p', 'e', 'g'] {
        Some(ThumbFormat::Jpeg)
    } else {
        None
    }
}

/// The encoding implied by the extension of `k`, compared after lowercasing.
pub open spec fn format_of(k: Seq<char>) -> Option<ThumbFormat> {
    match raw_extension_of(k) {
        Some(e) => format_for(lower_of(e)),
        None => None,
    }
}

/// Whether `image::load_from_memory` decodes these bytes.
pub uninterp spec fn decodes(b: Seq<u8>) -> bool;

/// The bytes that every encoding in `format` starts with: the PNG signature,
/// or the JPEG start-of-image marker.
pub open spec fn signature(format: ThumbFormat) -> Seq<u8> {
    match format {
        ThumbFormat::Png => seq![137u8, 80u8, 78u8, 71u8, 13u8, 10u8, 26u8, 10u8],
        ThumbFormat::Jpeg => seq![0xFFu8, 0xD8u8],
    }
}

/// `b` starts with the signature of `format`.
pub open spec fn encoded_as(b: Seq<u8>, format: ThumbFormat) -> bool {
    signature(format).len() <= b.len() && b.subrange(0, signature(format).len() as int)
        == signature(format)
}

/// Relies on `image::load_from_memory`: decodes the bytes, guessing the
/// format from their content; whether it succeeds depends on the bytes alone.
#[verifier::external_body]
fn decode(bytes: &Vec<u8>) -> (r: Result<DynamicImage, ImageError>)
    ensures
        r is Ok == decodes(bytes@),
{
    image::load_from_memory(bytes.as_slice())
}

/// Relies on `DynamicImage::resize` with the Lanczos3 filter: fits the image
/// within `size` by `size`, keeping its aspect ratio.
#[verifier::external_body]
fn resize_to_fit(img: &DynamicImage, size: u32) -> (r: DynamicImage) {
    img.resize(size, size, image::imageops::FilterType::Lanczos3)
}

/// Relies on `DynamicImage::write_to`: encodes the image in the given format
/// into an empty in-memory buffer. The PNG encoder writes the PNG signature
/// first, the JPEG encoder the start-of-image marker.
#[verifier::external_body]
fn encode(img: &DynamicImage, format: ThumbFormat) -> (r: Result<Vec<u8>, ImageError>)
    ensures
        r matches Ok(b) ==> encoded_as(b@, format),
{
    let f = match format {
        ThumbFormat::Png => image::ImageFormat::Png,
        ThumbFormat::Jpeg => image::ImageFormat::Jpeg,
    };
    let mut out = std::io::Cursor::new(Vec::new());
    img.write_to(&mut out, f).map(|_| out.into_inner())
}

/// The encoding implied by the extension of `key`, if it has one.
pub fn thumbnail_format(key: &str) -> (r: Option<ThumbFormat>)
    ensures
        r == format_of(key@),
{
    match extension_of(key) {
        None => None,
        Some(e) => format_for_extension(&chars_of(e.as_str())),
    }
}

/// The encoding that the lowercased extension `l` names, if any.
pub fn format_for_extension(l: &Vec<char>) -> (r: Option<ThumbFormat>)
    ensures
        r == format_for(l@),
{
    let png: Vec<char> = vec!['p', 'n', 'g'];
    let jpg: Vec<char> = vec!['j', 'p', 'g'];
    let jpeg: Vec<char> = vec!['j', 'p', 'e', 'g'];
    assert(png@ =~= seq!['p', 'n', 'g']);
    assert(jpg@ =~= seq!['j', 'p', 'g']);
    assert(jpeg@ =~= seq!['j', 'p', 'e', 'g']);
    if equal_chars(l, &png) {
        Some(ThumbFormat::Png)
    } else if equal_chars(l, &jpg) || equal_chars(l, &jpeg) {
        Some(ThumbFormat::Jpeg)
    } else {
        None
    }
}

/// Decodes `source`, fits it within `size` by `size` and encodes it in the
/// format that the extension of `key` implies. Bytes that do not decode give
/// `DecodeError`; a decoded image whose key implies no format gives
/// `UnsupportedFormat`; otherwise the result is the encoding in that format,
/// or `EncodeError` where the encoder refuses the image.
pub fn make_thumbnail(source: &Vec<u8>, key: &str, size: u32) -> (r: Result<
    Vec<u8>,
    ThumbnailError,
>)
    ensures
        (r == Err::<Vec<u8>, ThumbnailError>(ThumbnailError::DecodeError)) == !decodes(source@),
        decodes(source@) && format_of(key@) is None ==> r == Err::<Vec<u8>, ThumbnailError>(
            ThumbnailError::UnsupportedFormat,
        ),
        decodes(source@) && format_of(key@) is Some ==> (r is Ok || r == Err::<
            Vec<u8>,
            ThumbnailError,
        >(ThumbnailError::EncodeError)),
        r matches Ok(b) ==> format_of(key@) is Some && encoded_as(b@, format_of(key@)->0),
{
    let img = match decode(source) {
        Ok(img) => img,
        Err(_) => return Err(ThumbnailError::DecodeError),
    };
    let resized = resize_to_fit(&img, size);
    let format = match thumbnail_format(key) {
        Some(f) => f,
        None => return Err(ThumbnailError::UnsupportedFormat),
    };
    match encode(&resized, format) {
        Ok(bytes) => Ok(bytes),
        Err(_) => Err(ThumbnailError::EncodeError),
    }
}

/// The key under which the thumbnail of `key` is stored for the job `event`.
pub fn destination_key(event: &InputEvent, key: &str) -> (r: Result<String, ThumbnailError>)
    ensures
        match expected_key_of(key@, event.prefix@, event.tgt_size as nat) {
            Some(t) => r is Ok && r->Ok_0@ == t,
            None => r == Err::<String, ThumbnailError>(ThumbnailError::MalformedKey),
        },
{
    match expected_thumbnail_key(key, event.prefix.as_str(), event.tgt_size) {
        Ok(t) => Ok(t),
        Err(KeyError::MalformedKey) => Err(ThumbnailError::MalformedKey),
    }
}

/// The stored key and the bytes of the thumbnail of `key`, made from the
/// bytes `source` of that object. A key without an identifier segment gives
/// `MalformedKey`; otherwise the result is that of `make_thumbnail`, paired
/// with the expected thumbnail key.
pub fn thumbnail_upload(event: &InputEvent, key: &str, source: &Vec<u8>) -> (r: Result<
    (String, Vec<u8>),
    ThumbnailError,
>)
    ensures
        expected_key_of(key@, event.prefix@, event.tgt_size as nat) is None ==> r == Err::<
            (String, Vec<u8>),
            ThumbnailError,
        >(ThumbnailError::MalformedKey),
        expected_key_of(key@, event.prefix@, event.tgt_size as nat) is Some ==> ((r == Err::<
            (String, Vec<u8>),
            ThumbnailError,
        >(ThumbnailError::DecodeError)) == !decodes(source@)),
        expected_key_of(key@, event.prefix@, event.tgt_size as nat) is Some && decodes(source@)
            && format_of(key@) is None ==> r == Err::<(String, Vec<u8>), ThumbnailError>(
            ThumbnailError::UnsupportedFormat,
        ),
        expected_key_of(key@, event.prefix@, event.tgt_size as nat) is Some && decodes(source@)
            && format_of(key@) is Some ==> (r is Ok || r == Err::<(String, Vec<u8>), ThumbnailError>(
            ThumbnailError::EncodeError,
        )),
        r matches Ok((dest, bytes)) ==> expected_key_of(key@, event.prefix@, event.tgt_size as nat)
            == Some(dest@) && format_of(key@) is Some && encoded_as(bytes@, format_of(key@)->0),
{
    let dest = match destination_key(event, key) {
        Ok(d) => d,
        Err(e) => return Err(e),
    };
    match make_thumbnail(source, key, event.tgt_size) {
        Ok(bytes) => Ok((dest, bytes)),
        Err(e) => Err(e),
    }
}

} // verus!
