use pptx_shrink::RecodeError;
use pptx_shrink::imaging::compress_image;

fn gradient_png() -> Vec<u8> {
    let img = image::RgbImage::from_fn(64, 64, |x, y| image::Rgb([x as u8, y as u8, 128]));
    let mut buf = std::io::Cursor::new(Vec::new());
    image::DynamicImage::ImageRgb8(img).write_to(&mut buf, image::ImageFormat::Png).unwrap();
    buf.into_inner()
}

fn gradient_jpeg() -> Vec<u8> {
    let img = image::RgbImage::from_fn(64, 64, |x, y| {
        image::Rgb([x as u8, y as u8, ((x + y) / 2) as u8])
    });
    let mut buf = std::io::Cursor::new(Vec::new());
    let mut enc = image::codecs::jpeg::JpegEncoder::new_with_quality(&mut buf, 90);
    enc.encode_image(&image::DynamicImage::ImageRgb8(img)).unwrap();
    buf.into_inner()
}

const PNG_MAGIC: [u8; 8] = [137, 80, 78, 71, 13, 10, 26, 10];

#[test]
fn recompressed_output_is_strictly_smaller() {
    let png = gradient_png();
    match compress_image(&png, 80) {
        Ok(out) => assert!(out.len() < png.len()),
        Err(e) => assert!(matches!(
            e,
            RecodeError::NoImprovement | RecodeError::DecodeError | RecodeError::EncodeError
        )),
    }
    let jpg = gradient_jpeg();
    match compress_image(&jpg, 50) {
        Ok(out) => assert!(out.len() < jpg.len()),
        Err(e) => assert!(matches!(
            e,
            RecodeError::NoImprovement | RecodeError::DecodeError | RecodeError::EncodeError
        )),
    }
}

#[test]
fn format_is_preserved() {
    let png = gradient_png();
    if let Ok(out) = compress_image(&png, 80) {
        assert_eq!(&out[..8], &PNG_MAGIC);
    }
    let jpg = gradient_jpeg();
    if let Ok(out) = compress_image(&jpg, 50) {
        assert_eq!(&out[..3], &[255, 216, 255]);
    }
}

#[test]
fn unsniffable_bytes_fail_with_unsupported_format() {
    let r = compress_image(&b"this is not an image at all".to_vec(), 80);
    assert_eq!(r, Err(RecodeError::UnsupportedFormat));
    let r = compress_image(&Vec::new(), 80);
    assert_eq!(r, Err(RecodeError::UnsupportedFormat));
}

#[test]
fn gif_bytes_fail_with_unsupported_format() {
    // A GIF header sniffs as neither PNG nor JPEG, so it is never converted.
    let mut gif = b"GIF89a".to_vec();
    gif.extend_from_slice(&[1, 0, 1, 0, 0, 0, 0]);
    assert_eq!(compress_image(&gif, 80), Err(RecodeError::UnsupportedFormat));
}

#[test]
fn truncated_png_fails_with_decode_error() {
    let mut bad = PNG_MAGIC.to_vec();
    bad.extend_from_slice(&[1, 2, 3, 4]);
    assert_eq!(compress_image(&bad, 80), Err(RecodeError::DecodeError));
}

#[test]
fn recompressing_own_output_gives_no_improvement() {
    let png = gradient_png();
    if let Ok(out) = compress_image(&png, 80) {
        assert_eq!(compress_image(&out, 80), Err(RecodeError::NoImprovement));
    }
}

#[test]
fn lower_quality_never_larger_than_higher_quality() {
    let jpg = gradient_jpeg();
    let low = compress_image(&jpg, 0);
    let high = compress_image(&jpg, 100);
    if let (Ok(low), Ok(high)) = (low, high) {
        assert!(low.len() <= high.len());
    }
}
