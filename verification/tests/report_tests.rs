use pptx_shrink::pptx::CompressionStats;
use pptx_shrink::report::build_report;
use pptx_shrink::report::render_report;

fn stats(xml_saved: usize, image_saved: usize) -> CompressionStats {
    CompressionStats {
        total_files: 10,
        xml_files: 4,
        xml_saved,
        images_compressed: 3,
        images_skipped: 2,
        image_saved,
    }
}

#[test]
fn report_sizes_and_percentage() {
    // 3.5 MiB original, 1.75 MiB compressed: exactly half is saved.
    let original = 3 * 1048576 + 524288;
    let compressed = original / 2;
    let r = build_report(&stats(2048, 4096), original, compressed, 80, 1234);
    assert_eq!(r.original_bytes, original);
    assert_eq!(r.original_mb_whole, 3);
    assert_eq!(r.original_mb_frac, 50);
    assert_eq!(r.compressed_bytes, compressed);
    assert_eq!(r.saved_bytes, original - compressed);
    assert_eq!(r.percent_saved, 50);
    assert_eq!(r.xml_saved_kb_whole, 2);
    assert_eq!(r.xml_saved_kb_frac, 0);
    assert_eq!(r.image_saved_kb_whole, 4);
    assert_eq!(r.quality_percent, 80);
    assert_eq!(r.elapsed_s_whole, 1);
    assert_eq!(r.elapsed_s_frac, 23);
}

#[test]
fn report_percentage_truncates_toward_zero() {
    let r = build_report(&stats(0, 0), 3, 2, 50, 0);
    // saved = 1 of 3 bytes: 33.3...% truncates to 33.
    assert_eq!(r.saved_bytes, 1);
    assert_eq!(r.percent_saved, 33);
}

#[test]
fn report_guards_zero_original_size() {
    let r = build_report(&stats(0, 0), 0, 0, 0, 0);
    assert_eq!(r.percent_saved, 0);
    assert_eq!(r.saved_bytes, 0);
}

#[test]
fn report_kb_fraction_is_tenths() {
    // 1536 bytes = 1.5 KB.
    let r = build_report(&stats(1536, 0), 10, 10, 0, 0);
    assert_eq!(r.xml_saved_kb_whole, 1);
    assert_eq!(r.xml_saved_kb_frac, 5);
}

#[test]
fn rendered_report_carries_the_fields() {
    let r = build_report(&stats(2048, 4096), 1048576, 524288, 80, 2500);
    let text = render_report(&r);
    assert!(text.contains("50%"));
    assert!(text.contains("80%"));
    assert!(text.contains("2.50 s"));
}
