//! The report of one rewrite: archive-level sizes and percentage saved,
//! per-category counts, quality and elapsed time.  All numbers are computed
//! and proved here; only the final wording is assembled by `format!`.
use vstd::prelude::*;
use crate::pptx::CompressionStats;

verus! {

/// Whole megabytes of a byte count.
pub open spec fn mb_whole(bytes: int) -> int {
    bytes / 1048576
}

/// Hundredths of a megabyte beyond the whole part, truncated.
pub open spec fn mb_frac2(bytes: int) -> int {
    (bytes % 1048576) * 100 / 1048576
}

/// Whole kilobytes of a byte count.
pub open spec fn kb_whole(bytes: int) -> int {
    bytes / 1024
}

/// Tenths of a kilobyte beyond the whole part, truncated.
pub open spec fn kb_frac1(bytes: int) -> int {
    (bytes % 1024) * 10 / 1024
}

/// Percentage saved, truncated toward zero; zero when nothing was there.
pub open spec fn percent_of(saved: int, original: int) -> int {
    if original > 0 {
        saved * 100 / original
    } else {
        0
    }
}

/// The numeric fields of the report, each proved from its inputs.  Fractions
/// are carried as separate whole and fractional digits so that rendering
/// needs no arithmetic.
#[derive(Clone, Copy, PartialEq, Eq, Structural, Debug)]
pub struct Report {
    pub original_bytes: u64,
    pub original_mb_whole: u64,
    pub original_mb_frac: u64,
    pub compressed_bytes: u64,
    pub compressed_mb_whole: u64,
    pub compressed_mb_frac: u64,
    pub saved_bytes: u64,
    pub saved_mb_whole: u64,
    pub saved_mb_frac: u64,
    pub percent_saved: u64,
    pub total_files: u64,
    pub xml_files: u64,
    pub xml_saved_kb_whole: u64,
    pub xml_saved_kb_frac: u64,
    pub images_compressed: u64,
    pub image_saved_kb_whole: u64,
    pub image_saved_kb_frac: u64,
    pub images_skipped: u64,
    pub quality_percent: u8,
    pub elapsed_s_whole: u64,
    pub elapsed_s_frac: u64,
}

fn split_mb(bytes: u64) -> (r: (u64, u64))
    ensures
        r.0 == mb_whole(bytes as int),
        r.1 == mb_frac2(bytes as int),
{
    (bytes / 1048576, (bytes % 1048576) * 100 / 1048576)
}

fn split_kb(bytes: u64) -> (r: (u64, u64))
    ensures
        r.0 == kb_whole(bytes as int),
        r.1 == kb_frac1(bytes as int),
{
    (bytes / 1024, (bytes % 1024) * 10 / 1024)
}

fn percent_saved_of(saved: u64, original: u64) -> (r: u64)
    requires
        saved <= original,
    ensures
        r == percent_of(saved as int, original as int),
        r <= 100,
{
    if original == 0 {
        return 0;
    }
    let wide: u128 = (saved as u128) * 100 / (original as u128);
    proof {
        let s = saved as int;
        let o = original as int;
        assert(s * 100 <= o * 100) by (nonlinear_arith)
            requires
                s <= o,
        ;
        vstd::arithmetic::div_mod::lemma_div_is_ordered(s * 100, o * 100, o);
        vstd::arithmetic::div_mod::lemma_div_multiples_vanish(100, o);
        assert(o * 100 == 100 * o) by (nonlinear_arith);
        assert(s * 100 / o <= 100);
    }
    wide as u64
}

/// Derive every report field from the statistics, the archive-level sizes,
/// the quality setting and the elapsed time in milliseconds.
pub fn build_report(
    stats: &CompressionStats,
    original_size: u64,
    compressed_size: u64,
    quality_percent: u8,
    elapsed_ms: u64,
) -> (r: Report)
    ensures
        r.original_bytes == original_size,
        r.original_mb_whole == mb_whole(original_size as int),
        r.original_mb_frac == mb_frac2(original_size as int),
        r.compressed_bytes == compressed_size,
        r.compressed_mb_whole == mb_whole(compressed_size as int),
        r.compressed_mb_frac == mb_frac2(compressed_size as int),
        r.saved_bytes == (if compressed_size <= original_size {
            original_size - compressed_size
        } else {
            0int
        }),
        r.percent_saved == percent_of(r.saved_bytes as int, original_size as int),
        r.saved_mb_whole == mb_whole(r.saved_bytes as int),
        r.saved_mb_frac == mb_frac2(r.saved_bytes as int),
        r.total_files == stats.total_files,
        r.xml_files == stats.xml_files,
        r.xml_saved_kb_whole == kb_whole(stats.xml_saved as int),
        r.xml_saved_kb_frac == kb_frac1(stats.xml_saved as int),
        r.images_compressed == stats.images_compressed,
        r.image_saved_kb_whole == kb_whole(stats.image_saved as int),
        r.image_saved_kb_frac == kb_frac1(stats.image_saved as int),
        r.images_skipped == stats.images_skipped,
        r.quality_percent == quality_percent,
        r.elapsed_s_whole == elapsed_ms / 1000,
        r.elapsed_s_frac == (elapsed_ms % 1000) / 10,
{
    let saved: u64 = if compressed_size <= original_size {
        original_size - compressed_size
    } else {
        0
    };
    let (omb, omf) = split_mb(original_size);
    let (cmb, cmf) = split_mb(compressed_size);
    let (smb, smf) = split_mb(saved);
    let (xkw, xkf) = split_kb(stats.xml_saved as u64);
    let (ikw, ikf) = split_kb(stats.image_saved as u64);
    Report {
        original_bytes: original_size,
        original_mb_whole: omb,
        original_mb_frac: omf,
        compressed_bytes: compressed_size,
        compressed_mb_whole: cmb,
        compressed_mb_frac: cmf,
        saved_bytes: saved,
        saved_mb_whole: smb,
        saved_mb_frac: smf,
        percent_saved: percent_saved_of(saved, original_size),
        total_files: stats.total_files as u64,
        xml_files: stats.xml_files as u64,
        xml_saved_kb_whole: xkw,
        xml_saved_kb_frac: xkf,
        images_compressed: stats.images_compressed as u64,
        image_saved_kb_whole: ikw,
        image_saved_kb_frac: ikf,
        images_skipped: stats.images_skipped as u64,
        quality_percent,
        elapsed_s_whole: elapsed_ms / 1000,
        elapsed_s_frac: (elapsed_ms % 1000) / 10,
    }
}

/// Relies on the std `format!` macro: lays the proved numbers out as the
/// human-readable summary.  The wording is presentation only.
#[verifier::external_body]
pub fn render_report(r: &Report) -> (s: String)
    ensures
        s@.len() > 0,
{
    format!(
        "Compression finished!\n\nFile info:\n- original size: {}.{:02} MB ({} bytes)\n- compressed: {}.{:02} MB ({} bytes)\n- saved: {}.{:02} MB ({} bytes)\n- compression: {}%\n\nProcessing stats:\n- total entries: {}\n- XML parts: {} (saved {}.{} KB)\n- images compressed: {} (saved {}.{} KB)\n- images skipped: {}\n- image quality: {}%\n\nElapsed: {}.{:02} s",
        r.original_mb_whole, r.original_mb_frac, r.original_bytes,
        r.compressed_mb_whole, r.compressed_mb_frac, r.compressed_bytes,
        r.saved_mb_whole, r.saved_mb_frac, r.saved_bytes,
        r.percent_saved, r.total_files,
        r.xml_files, r.xml_saved_kb_whole, r.xml_saved_kb_frac,
        r.images_compressed, r.image_saved_kb_whole, r.image_saved_kb_frac,
        r.images_skipped, r.quality_percent,
        r.elapsed_s_whole, r.elapsed_s_frac,
    )
}

} // verus!
