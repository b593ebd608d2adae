use resizer::selection::InputEvent;
use resizer::thumbnail::{
    destination_key, format_for_extension, make_thumbnail, thumbnail_format, thumbnail_upload, ThumbFormat,
    ThumbnailError,
};

fn png_bytes(w: u32, h: u32) -> Vec<u8> {
    let img = image::DynamicImage::ImageRgb8(image::RgbImage::new(w, h));
    let mut out = std::io::Cursor::new(Vec::new());
    img.write_to(&mut out, image::ImageFormat::Png).unwrap();
    out.into_inner()
}

fn event() -> InputEvent {
    InputEvent::new("bucket".to_string(), "p".to_string(), 100, None)
}

#[test]
fn format_follows_extension() {
    assert_eq!(thumbnail_format("p/1/a.png"), Some(ThumbFormat::Png));
    assert_eq!(thumbnail_format("p/1/a.JPG"), Some(ThumbFormat::Jpeg));
    assert_eq!(thumbnail_format("p/1/a.jpeg"), Some(ThumbFormat::Jpeg));
    assert_eq!(thumbnail_format("p/1/a.gif"), None);
    assert_eq!(thumbnail_format("p/1/a"), None);
}

#[test]
fn thumbnail_fits_within_size() {
    let out = make_thumbnail(&png_bytes(200, 100), "p/1/a.png", 100).unwrap();
    let img = image::load_from_memory(&out).unwrap();
    assert_eq!((img.width(), img.height()), (100, 50));
    assert_eq!(image::guess_format(&out).unwrap(), image::ImageFormat::Png);
}

#[test]
fn thumbnail_takes_format_of_extension() {
    let out = make_thumbnail(&png_bytes(40, 80), "p/1/a.jpg", 20).unwrap();
    assert_eq!(image::guess_format(&out).unwrap(), image::ImageFormat::Jpeg);
    let img = image::load_from_memory(&out).unwrap();
    assert_eq!((img.width(), img.height()), (10, 20));
}

#[test]
fn undecodable_bytes_fail() {
    assert_eq!(
        make_thumbnail(&vec![1, 2, 3, 4], "p/1/a.png", 100),
        Err(ThumbnailError::DecodeError)
    );
}

#[test]
fn unsupported_extension_fails() {
    assert_eq!(
        make_thumbnail(&png_bytes(10, 10), "p/1/a.gif", 100),
        Err(ThumbnailError::UnsupportedFormat)
    );
}

#[test]
fn upload_goes_to_expected_key() {
    let (dest, bytes) = thumbnail_upload(&event(), "p/1/a.png", &png_bytes(300, 300)).unwrap();
    assert_eq!(dest, "p/1/thumb_100x100_a.png");
    let img = image::load_from_memory(&bytes).unwrap();
    assert_eq!((img.width(), img.height()), (100, 100));
}

#[test]
fn upload_of_key_without_identifier_fails() {
    assert_eq!(
        thumbnail_upload(&event(), "a.png", &png_bytes(10, 10)),
        Err(ThumbnailError::MalformedKey)
    );
    assert_eq!(destination_key(&event(), "a.png"), Err(ThumbnailError::MalformedKey));
}

#[test]
fn format_for_lowercased_extension() {
    assert_eq!(format_for_extension(&vec!['p', 'n', 'g']), Some(ThumbFormat::Png));
    assert_eq!(format_for_extension(&vec!['j', 'p', 'g']), Some(ThumbFormat::Jpeg));
    assert_eq!(format_for_extension(&vec!['j', 'p', 'e', 'g']), Some(ThumbFormat::Jpeg));
    assert_eq!(format_for_extension(&vec!['P', 'N', 'G']), None);
    assert_eq!(format_for_extension(&vec![]), None);
}

#[test]
fn thumbnail_bytes_start_with_signature() {
    let png = make_thumbnail(&png_bytes(30, 30), "p/1/a.PNG", 10).unwrap();
    assert_eq!(&png[..8], &[137u8, 80, 78, 71, 13, 10, 26, 10]);
    let jpg = make_thumbnail(&png_bytes(30, 30), "p/1/a.jpeg", 10).unwrap();
    assert_eq!(&jpg[..2], &[0xFFu8, 0xD8]);
}

#[test]
fn undecodable_bytes_fail_before_format_is_checked() {
    assert_eq!(
        make_thumbnail(&Vec::new(), "p/1/a.gif", 100),
        Err(ThumbnailError::DecodeError)
    );
    assert_eq!(
        thumbnail_upload(&event(), "p/1/a.gif", &vec![0u8; 16]),
        Err(ThumbnailError::DecodeError)
    );
    assert_eq!(
        thumbnail_upload(&event(), "p/1/a.gif", &png_bytes(10, 10)),
        Err(ThumbnailError::UnsupportedFormat)
    );
}
