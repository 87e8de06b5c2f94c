//! Image re-encoding: detect the source format by content sniffing, decode,
//! re-encode in the same format (losslessly at the strongest setting for
//! PNG, at the caller's quality for JPEG), and accept the result only if it
//! is strictly smaller than the input.
//!
//! What the codecs produce is named (`png_recode`, `jpeg_recode`): both
//! pipelines of the `image` crate consult nothing but their arguments, so
//! their outcome is a function of the bytes (and, for JPEG, the quality),
//! and the contracts here pin the result for every input in terms of those
//! names.
use vstd::prelude::*;
use crate::RecodeError;

verus! {

/// The byte stream begins with the eight-byte PNG signature.
pub open spec fn is_png_bytes(s: Seq<u8>) -> bool {
    &&& s.len() >= 8
    &&& s[0] == 137
    &&& s[1] == 80
    &&& s[2] == 78
    &&& s[3] == 71
    &&& s[4] == 13
    &&& s[5] == 10
    &&& s[6] == 26
    &&& s[7] == 10
}

/// The byte stream begins with the JPEG start-of-image marker followed by a
/// further marker byte.
pub open spec fn is_jpeg_bytes(s: Seq<u8>) -> bool {
    s.len() >= 3 && s[0] == 255 && s[1] == 216 && s[2] == 255
}

/// The format a byte stream sniffs as.  Only formats with a re-encoding rule
/// are distinguished; everything else is `Other`.
#[derive(Clone, Copy, PartialEq, Eq, Structural, Debug)]
pub enum SniffedFormat {
    Png,
    Jpeg,
    Other,
}

/// Content sniffing, from the leading magic bytes alone.
pub open spec fn sniff(s: Seq<u8>) -> SniffedFormat {
    if is_png_bytes(s) {
        SniffedFormat::Png
    } else if is_jpeg_bytes(s) {
        SniffedFormat::Jpeg
    } else {
        SniffedFormat::Other
    }
}

/// Detect the source format of raw image bytes by content, never by name.
pub fn sniff_format(data: &Vec<u8>) -> (r: SniffedFormat)
    ensures
        r == sniff(data@),
{
    if data.len() >= 8 && data[0] == 137 && data[1] == 80 && data[2] == 78 && data[3] == 71
        && data[4] == 13 && data[5] == 10 && data[6] == 26 && data[7] == 10 {
        SniffedFormat::Png
    } else if data.len() >= 3 && data[0] == 255 && data[1] == 216 && data[2] == 255 {
        SniffedFormat::Jpeg
    } else {
        SniffedFormat::Other
    }
}

/// What decoding the bytes as PNG and re-encoding them losslessly at the
/// strongest compression yields: `Some` of the new bytes when both steps
/// succeed, `None` when either fails.  The pipeline reads only the bytes, so
/// this is a function of them.
pub uninterp spec fn png_recode(data: Seq<u8>) -> Option<Seq<u8>>;

/// What decoding the bytes as JPEG and re-encoding them at the given quality
/// yields: `Some` of the new bytes when both steps succeed, `None` when
/// either fails.  The pipeline reads only the bytes and the quality, so this
/// is a function of them.
pub uninterp spec fn jpeg_recode(data: Seq<u8>, quality: u8) -> Option<Seq<u8>>;

/// Relies on `image::load_from_memory_with_format` with the PNG format and
/// on `image::codecs::png::PngEncoder` at the strongest compression with
/// adaptive filtering: decode-then-encode consults only `data`, so its
/// outcome is `png_recode(data@)`; the quality knob plays no part.  What the
/// encoder writes is a PNG datastream, which begins with the PNG signature.
/// The error says which of the two steps failed.
#[verifier::external_body]
fn recode_png(data: &Vec<u8>) -> (r: Result<Vec<u8>, RecodeError>)
    ensures
        (match png_recode(data@) {
            Some(c) => r matches Ok(out) && out@ == c,
            None => r is Err,
        }),
        r matches Ok(out) ==> is_png_bytes(out@),
        r is Err ==> (r == Err::<Vec<u8>, RecodeError>(RecodeError::DecodeError) || r == Err::<
            Vec<u8>,
            RecodeError,
        >(RecodeError::EncodeError)),
{
    let img = image::load_from_memory_with_format(data.as_slice(), image::ImageFormat::Png)
        .map_err(|_| RecodeError::DecodeError)?;
    let mut buf = std::io::Cursor::new(Vec::new());
    let enc = image::codecs::png::PngEncoder::new_with_quality(
        &mut buf,
        image::codecs::png::CompressionType::Best,
        image::codecs::png::FilterType::Adaptive,
    );
    image::ImageEncoder::write_image(enc, img.as_bytes(), img.width(), img.height(), img.color().into())
        .map_err(|_| RecodeError::EncodeError)?;
    Ok(buf.into_inner())
}

/// Relies on `image::load_from_memory_with_format` with the JPEG format and
/// on `image::codecs::jpeg::JpegEncoder` at the given quality on its 0-100
/// scale (the encoder itself clamps it into 1-100): decode-then-encode
/// consults only `data` and `quality`, so its outcome is
/// `jpeg_recode(data@, quality)`.  What the encoder writes is a JPEG
/// datastream, which begins with the start-of-image marker followed by a
/// segment marker.  The error says which of the two steps failed.
#[verifier::external_body]
fn recode_jpeg(data: &Vec<u8>, quality: u8) -> (r: Result<Vec<u8>, RecodeError>)
    ensures
        (match jpeg_recode(data@, quality) {
            Some(c) => r matches Ok(out) && out@ == c,
            None => r is Err,
        }),
        r matches Ok(out) ==> is_jpeg_bytes(out@),
        r is Err ==> (r == Err::<Vec<u8>, RecodeError>(RecodeError::DecodeError) || r == Err::<
            Vec<u8>,
            RecodeError,
        >(RecodeError::EncodeError)),
{
    let img = image::load_from_memory_with_format(data.as_slice(), image::ImageFormat::Jpeg)
        .map_err(|_| RecodeError::DecodeError)?;
    let mut buf = std::io::Cursor::new(Vec::new());
    let mut enc = image::codecs::jpeg::JpegEncoder::new_with_quality(&mut buf, quality);
    enc.encode_image(&img).map_err(|_| RecodeError::EncodeError)?;
    Ok(buf.into_inner())
}

/// The all-or-nothing acceptance rule: a re-encoded candidate replaces the
/// original only if it is strictly smaller; otherwise the attempt fails with
/// `NoImprovement` and the caller keeps the original bytes.
pub fn accept_if_smaller(original: &Vec<u8>, candidate: Vec<u8>) -> (r: Result<Vec<u8>, RecodeError>)
    ensures
        candidate@.len() < original@.len() ==> (r matches Ok(out) && out@ == candidate@),
        candidate@.len() >= original@.len() ==> r == Err::<Vec<u8>, RecodeError>(
            RecodeError::NoImprovement,
        ),
{
    if candidate.len() < original.len() {
        Ok(candidate)
    } else {
        Err(RecodeError::NoImprovement)
    }
}

/// Re-encode raw image bytes at the given quality, preserving the sniffed
/// format.  The result is pinned for every input: bytes that sniff as
/// neither PNG nor JPEG fail with `UnsupportedFormat`; otherwise the named
/// codec outcome decides — a failed decode or encode is reported as such, a
/// re-encoding that is not strictly smaller fails with `NoImprovement`, and
/// a strictly smaller one is returned as it is.
pub fn compress_image(data: &Vec<u8>, quality_percent: u8) -> (r: Result<Vec<u8>, RecodeError>)
    requires
        quality_percent <= 100,
    ensures
        r matches Ok(out) ==> {
            &&& out@.len() < data@.len()
            &&& sniff(out@) == sniff(data@)
            &&& sniff(data@) != SniffedFormat::Other
        },
        (r == Err::<Vec<u8>, RecodeError>(RecodeError::UnsupportedFormat)) <==> sniff(data@)
            == SniffedFormat::Other,
        sniff(data@) == SniffedFormat::Png ==> (match png_recode(data@) {
            Some(c) => (if c.len() < data@.len() {
                r matches Ok(out) && out@ == c
            } else {
                r == Err::<Vec<u8>, RecodeError>(RecodeError::NoImprovement)
            }),
            None => r == Err::<Vec<u8>, RecodeError>(RecodeError::DecodeError) || r == Err::<
                Vec<u8>,
                RecodeError,
            >(RecodeError::EncodeError),
        }),
        sniff(data@) == SniffedFormat::Jpeg ==> (match jpeg_recode(data@, quality_percent) {
            Some(c) => (if c.len() < data@.len() {
                r matches Ok(out) && out@ == c
            } else {
                r == Err::<Vec<u8>, RecodeError>(RecodeError::NoImprovement)
            }),
            None => r == Err::<Vec<u8>, RecodeError>(RecodeError::DecodeError) || r == Err::<
                Vec<u8>,
                RecodeError,
            >(RecodeError::EncodeError),
        }),
{
    let fmt = sniff_format(data);
    match fmt {
        SniffedFormat::Other => Err(RecodeError::UnsupportedFormat),
        SniffedFormat::Png => {
            match recode_png(data) {
                Ok(candidate) => accept_if_smaller(data, candidate),
                Err(e) => Err(e),
            }
        },
        SniffedFormat::Jpeg => {
            match recode_jpeg(data, quality_percent) {
                Ok(candidate) => accept_if_smaller(data, candidate),
                Err(e) => Err(e),
            }
        },
    }
}

/// What an image entry becomes in the rewritten archive: the strictly
/// smaller re-encoding in its own format when the named codec outcome gives
/// one, the original bytes otherwise.  Bytes of no recognised format stay as
/// they are.
pub open spec fn recoded_or_original(data: Seq<u8>, quality: u8) -> Seq<u8> {
    if sniff(data) == SniffedFormat::Png {
        match png_recode(data) {
            Some(c) => if c.len() < data.len() {
                c
            } else {
                data
            },
            None => data,
        }
    } else if sniff(data) == SniffedFormat::Jpeg {
        match jpeg_recode(data, quality) {
            Some(c) => if c.len() < data.len() {
                c
            } else {
                data
            },
            None => data,
        }
    } else {
        data
    }
}

} // verus!
