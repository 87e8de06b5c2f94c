use std::cell::RefCell;
use std::io::Read;
use std::io::Write;

use pptx_shrink::CompressError;
use pptx_shrink::pptx::compress_package_with_quality;
use pptx_shrink::pptx::compress_pptx;
use pptx_shrink::pptx::compress_pptx_with_quality;

fn build_zip(entries: &[(&str, &[u8])]) -> Vec<u8> {
    let mut w = zip::ZipWriter::new(std::io::Cursor::new(Vec::new()));
    let opts = zip::write::SimpleFileOptions::default();
    for (name, data) in entries {
        w.start_file(*name, opts).unwrap();
        w.write_all(data).unwrap();
    }
    w.finish().unwrap().into_inner()
}

fn read_zip(data: &[u8]) -> Vec<(String, Vec<u8>)> {
    let mut archive = zip::ZipArchive::new(std::io::Cursor::new(data.to_vec())).unwrap();
    let mut out = Vec::new();
    for i in 0..archive.len() {
        let mut f = archive.by_index(i).unwrap();
        let name = f.name().to_string();
        let mut buf = Vec::new();
        f.read_to_end(&mut buf).unwrap();
        out.push((name, buf));
    }
    out
}

fn tiny_png() -> Vec<u8> {
    let img = image::RgbImage::from_fn(32, 32, |x, y| image::Rgb([x as u8, y as u8, 7]));
    let mut buf = std::io::Cursor::new(Vec::new());
    image::DynamicImage::ImageRgb8(img).write_to(&mut buf, image::ImageFormat::Png).unwrap();
    buf.into_inner()
}

#[test]
fn scenario_one_xml_and_one_image() {
    let png = tiny_png();
    let input = build_zip(&[("doc.xml", b"  <a>\n  <b/>\n  </a>  "), ("media/image1.png", &png)]);
    let out = compress_pptx_with_quality(&input, 80, |_p: usize, _t: usize| {}).unwrap();
    let entries = read_zip(&out.data);
    assert_eq!(entries.len(), 2);
    assert_eq!(entries[0].0, "doc.xml");
    assert_eq!(entries[0].1, b"<a><b/></a>".to_vec());
    assert_eq!(entries[1].0, "media/image1.png");
    assert!(entries[1].1.len() < png.len() || entries[1].1 == png);
    assert_eq!(out.stats.total_files, 2);
    assert_eq!(out.stats.xml_files, 1);
    assert_eq!(out.stats.images_compressed + out.stats.images_skipped, 1);
}

#[test]
fn entry_count_and_names_are_conserved() {
    let png = tiny_png();
    let input = build_zip(&[
        ("a.xml", b"<x/>"),
        ("media/p.png", &png),
        ("blob.bin", &[0u8, 1, 2, 3]),
        ("_rels/.rels", b" <r/> "),
    ]);
    let out = compress_pptx(&input).unwrap();
    let inp_names: Vec<String> = read_zip(&input).into_iter().map(|e| e.0).collect();
    let out_names: Vec<String> = read_zip(&out.data).into_iter().map(|e| e.0).collect();
    assert_eq!(inp_names, out_names);
    assert_eq!(out.stats.total_files, 4);
}

#[test]
fn opaque_entries_pass_through_unchanged() {
    let input = build_zip(&[("data.bin", &[9u8, 8, 7, 6, 5][..])]);
    let out = compress_pptx(&input).unwrap();
    let entries = read_zip(&out.data);
    assert_eq!(entries[0].1, vec![9u8, 8, 7, 6, 5]);
    assert_eq!(out.stats.xml_files, 0);
    assert_eq!(out.stats.images_compressed, 0);
    assert_eq!(out.stats.images_skipped, 0);
}

#[test]
fn no_images_means_no_callback_and_zero_counts() {
    let input = build_zip(&[("a.xml", b" <x/> "), ("b.bin", &[1u8, 2][..])]);
    let calls: RefCell<Vec<(usize, usize)>> = RefCell::new(Vec::new());
    let out = compress_pptx_with_quality(&input, 80, |p: usize, t: usize| {
        calls.borrow_mut().push((p, t));
    })
        .unwrap();
    assert!(calls.borrow().is_empty());
    assert_eq!(out.stats.images_compressed, 0);
    assert_eq!(out.stats.images_skipped, 0);
}

#[test]
fn progress_is_monotone_with_constant_total() {
    let png = tiny_png();
    let input = build_zip(&[
        ("m/a.png", &png[..]),
        ("doc.xml", b"<x/>"),
        ("m/b.gif", &[1u8, 2, 3][..]),
        ("m/c.jpg", &[4u8, 5][..]),
    ]);
    let calls: RefCell<Vec<(usize, usize)>> = RefCell::new(Vec::new());
    let out = compress_pptx_with_quality(&input, 80, |p: usize, t: usize| {
        calls.borrow_mut().push((p, t));
    })
        .unwrap();
    assert_eq!(*calls.borrow(), vec![(1, 3), (2, 3), (3, 3)]);
    assert_eq!(out.stats.images_compressed + out.stats.images_skipped, 3);
}

#[test]
fn unsupported_container_name_is_refused() {
    let r = compress_package_with_quality(
        &b"notes.txt".to_vec(),
        &b"whatever".to_vec(),
        80,
        |_p: usize, _t: usize| {},
    );
    assert_eq!(r.err(), Some(CompressError::UnsupportedContainer));
}

#[test]
fn supported_container_names_are_accepted() {
    let input = build_zip(&[("a.xml", b"<x/>")]);
    let ok = compress_package_with_quality(
        &b"deck.pptx".to_vec(),
        &input,
        80,
        |_p: usize, _t: usize| {},
    );
    assert!(ok.is_ok());
    let ok = compress_package_with_quality(
        &b"paper.docx".to_vec(),
        &input,
        80,
        |_p: usize, _t: usize| {},
    );
    assert!(ok.is_ok());
}

#[test]
fn corrupt_zip_fails_with_archive_format_error() {
    let r = compress_pptx(&b"this is not a zip archive".to_vec());
    assert_eq!(r.err(), Some(CompressError::ArchiveFormatError));
    let mut truncated = build_zip(&[("a.xml", b"<x/>")]);
    truncated.truncate(truncated.len() / 2);
    let r = compress_pptx(&truncated);
    assert_eq!(r.err(), Some(CompressError::ArchiveFormatError));
}

#[test]
fn invalid_utf8_text_part_fails_with_encoding_error() {
    let input = build_zip(&[("bad.xml", &[0xffu8, 0xfe, 0x00][..])]);
    let r = compress_pptx(&input);
    assert_eq!(r.err(), Some(CompressError::EncodingError));
}

#[test]
fn failed_image_is_kept_byte_identical_and_counted_skipped() {
    // A name classified as image whose bytes no codec accepts: the entry is
    // copied unchanged and tallied as skipped.
    let input = build_zip(&[("m/fake.png", &[1u8, 2, 3, 4][..])]);
    let out = compress_pptx(&input).unwrap();
    let entries = read_zip(&out.data);
    assert_eq!(entries[0].1, vec![1u8, 2, 3, 4]);
    assert_eq!(out.stats.images_compressed, 0);
    assert_eq!(out.stats.images_skipped, 1);
    assert_eq!(out.stats.image_saved, 0);
}
