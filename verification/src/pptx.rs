//! The archive rewriter: reads every entry of a package held in memory,
//! dispatches it by classification (minify text parts, re-encode images,
//! copy everything else), writes the result into a new archive at the
//! strongest container compression, and accounts for what was saved.
//!
//! Word and Slide packages share this pipeline unchanged; only the accepted
//! file-name suffixes differ, and those are checked by the dispatching entry
//! point.
use vstd::prelude::*;
use vstd::utf8::valid_utf8;
use crate::CompressError;
use crate::classify::EntryKind;
use crate::classify::classify;
use crate::classify::classify_name;
use crate::classify::is_container_file;
use crate::classify::is_container_name;
use crate::classify::is_image_file;
use crate::imaging::SniffedFormat;
use crate::imaging::compress_image;
use crate::imaging::recoded_or_original;
use crate::imaging::sniff;
use crate::minify::is_valid_utf8;
use crate::minify::minify;
use crate::minify::optimize_xml;
use crate::ziparc::archive_entries;
use crate::ziparc::archive_len;
use crate::ziparc::entry_name_at;
use crate::ziparc::entry_ok;
use crate::ziparc::finish_writer;
use crate::ziparc::new_writer;
use crate::ziparc::open_archive;
use crate::ziparc::read_entry;
use crate::ziparc::write_entry;
use crate::ziparc::writer_entries;
use crate::ziparc::zip_opens;
use crate::ziparc::zip_parse;

verus! {

/// Accumulated statistics of one rewrite.
#[derive(Clone, Copy, PartialEq, Eq, Structural, Debug)]
pub struct CompressionStats {
    /// All entries of the archive.
    pub total_files: usize,
    /// Text parts minified.
    pub xml_files: usize,
    /// Bytes saved by minification (saturating).
    pub xml_saved: usize,
    /// Images replaced by a smaller re-encoding.
    pub images_compressed: usize,
    /// Images kept as they were after a failed attempt.
    pub images_skipped: usize,
    /// Bytes saved on images (saturating).
    pub image_saved: usize,
}

impl Default for CompressionStats {
    fn default() -> (r: Self)
        ensures
            r.total_files == 0 && r.xml_files == 0 && r.xml_saved == 0,
            r.images_compressed == 0 && r.images_skipped == 0 && r.image_saved == 0,
    {
        CompressionStats {
            total_files: 0,
            xml_files: 0,
            xml_saved: 0,
            images_compressed: 0,
            images_skipped: 0,
            image_saved: 0,
        }
    }
}

/// What a successful rewrite hands back: the new archive bytes and the
/// statistics gathered while producing them.
pub struct PackageOutcome {
    pub data: Vec<u8>,
    pub stats: CompressionStats,
}

/// Addition capped at `usize::MAX`.
pub open spec fn sat_add_int(a: int, b: int) -> int {
    if a + b > usize::MAX {
        usize::MAX as int
    } else {
        a + b
    }
}

/// Image-classified entries among the first `i`.
pub open spec fn image_count_upto(entries: Seq<(Seq<u8>, Seq<u8>)>, i: int) -> int
    decreases i,
{
    if i <= 0 {
        0
    } else {
        image_count_upto(entries, i - 1) + if classify(entries[i - 1].0) == EntryKind::Image {
            1int
        } else {
            0int
        }
    }
}

/// Image-classified entries of the whole archive.
pub open spec fn image_count(entries: Seq<(Seq<u8>, Seq<u8>)>) -> int {
    image_count_upto(entries, entries.len() as int)
}

/// Text-part entries among the first `i`.
pub open spec fn text_count_upto(entries: Seq<(Seq<u8>, Seq<u8>)>, i: int) -> int
    decreases i,
{
    if i <= 0 {
        0
    } else {
        text_count_upto(entries, i - 1) + if classify(entries[i - 1].0) == EntryKind::TextPart {
            1int
        } else {
            0int
        }
    }
}

/// What minification saves on one text part, never negative.
pub open spec fn text_saved_of(data: Seq<u8>) -> int {
    if minify(data).len() <= data.len() {
        data.len() - minify(data).len()
    } else {
        0
    }
}

/// Bytes saved by minification over the first `i` entries, saturating.
pub open spec fn xml_saved_upto(entries: Seq<(Seq<u8>, Seq<u8>)>, i: int) -> int
    decreases i,
{
    if i <= 0 {
        0
    } else {
        let prev = xml_saved_upto(entries, i - 1);
        if classify(entries[i - 1].0) == EntryKind::TextPart {
            sat_add_int(prev, text_saved_of(entries[i - 1].1))
        } else {
            prev
        }
    }
}

/// Image entries among the first `i` whose output differs from the input,
/// that is, that were replaced by a smaller re-encoding.
pub open spec fn compressed_count_upto(
    inp: Seq<(Seq<u8>, Seq<u8>)>,
    outp: Seq<(Seq<u8>, Seq<u8>)>,
    i: int,
) -> int
    decreases i,
{
    if i <= 0 {
        0
    } else {
        compressed_count_upto(inp, outp, i - 1) + if classify(inp[i - 1].0) == EntryKind::Image
            && outp[i - 1].1 != inp[i - 1].1 {
            1int
        } else {
            0int
        }
    }
}

/// Bytes saved on image entries among the first `i`, saturating.
pub open spec fn image_saved_upto(
    inp: Seq<(Seq<u8>, Seq<u8>)>,
    outp: Seq<(Seq<u8>, Seq<u8>)>,
    i: int,
) -> int
    decreases i,
{
    if i <= 0 {
        0
    } else {
        let prev = image_saved_upto(inp, outp, i - 1);
        if classify(inp[i - 1].0) == EntryKind::Image && outp[i - 1].1.len() <= inp[i - 1].1.len() {
            sat_add_int(prev, inp[i - 1].1.len() - outp[i - 1].1.len())
        } else {
            prev
        }
    }
}

/// How one output entry relates to the input entry it came from: the name
/// is kept, a text part is minified, an image becomes exactly the named
/// recompression outcome — the strictly smaller re-encoding in its own
/// format when there is one, its original bytes otherwise — and anything
/// else is copied.
pub open spec fn entry_transformed(
    inp: (Seq<u8>, Seq<u8>),
    outp: (Seq<u8>, Seq<u8>),
    quality: u8,
) -> bool {
    &&& outp.0 == inp.0
    &&& match classify(inp.0) {
        EntryKind::TextPart => valid_utf8(inp.1) && outp.1 == minify(inp.1),
        EntryKind::Image => outp.1 == recoded_or_original(inp.1, quality) && (outp.1 == inp.1 || (
        outp.1.len() < inp.1.len() && sniff(outp.1) == sniff(inp.1) && sniff(inp.1)
            != SniffedFormat::Other)),
        EntryKind::Opaque => outp.1 == inp.1,
    }
}

/// Every text part of the archive is valid UTF-8.
pub open spec fn all_texts_valid(inp: Seq<(Seq<u8>, Seq<u8>)>) -> bool {
    forall|j: int|
        0 <= j < inp.len() && classify(#[trigger] inp[j].0) == EntryKind::TextPart ==> valid_utf8(
            inp[j].1,
        )
}

/// No two entries of the archive share a name.
pub open spec fn distinct_names(inp: Seq<(Seq<u8>, Seq<u8>)>) -> bool {
    forall|j1: int, j2: int| 0 <= j1 < j2 < inp.len() ==> (#[trigger] inp[j1].0) != (#[trigger] inp[j2].0)
}

/// Every entry name fits the format's 16-bit name-length field.
pub open spec fn names_fit(inp: Seq<(Seq<u8>, Seq<u8>)>) -> bool {
    forall|j: int| 0 <= j < inp.len() ==> (#[trigger] inp[j].0).len() <= 65535
}

/// Every entry's data stays comfortably below the ZIP64 size threshold,
/// leaving room for the Deflate worst case, so it can be rewritten into an
/// ordinary archive.
pub open spec fn entries_fit(inp: Seq<(Seq<u8>, Seq<u8>)>) -> bool {
    forall|j: int| 0 <= j < inp.len() ==> (#[trigger] inp[j].1).len() <= 0xF000_0000
}

/// What a successful rewrite guarantees: the output bytes are a readable
/// archive with exactly one output entry per input entry, same names in the
/// same order, each transformed by its classification, and the statistics
/// count exactly what happened.
pub open spec fn ok_post(input: Seq<u8>, quality: u8, out: PackageOutcome) -> bool {
    &&& zip_parse(input) is Some
    &&& zip_parse(out.data@) is Some
    &&& {
        let inp = zip_parse(input)->0;
        let outp = zip_parse(out.data@)->0;
        &&& outp.len() == inp.len()
        &&& forall|j: int| 0 <= j < inp.len() ==> #[trigger] entry_transformed(inp[j], outp[j], quality)
        &&& out.stats.total_files == inp.len()
        &&& out.stats.xml_files == text_count_upto(inp, inp.len() as int)
        &&& out.stats.xml_saved == xml_saved_upto(inp, inp.len() as int)
        &&& out.stats.images_compressed == compressed_count_upto(inp, outp, inp.len() as int)
        &&& out.stats.images_skipped == image_count(inp) - compressed_count_upto(
            inp,
            outp,
            inp.len() as int,
        )
        &&& out.stats.image_saved == image_saved_upto(inp, outp, inp.len() as int)
    }
}

/// The whole contract of one rewrite, for success and for every failure.
pub open spec fn compress_post(
    input: Seq<u8>,
    quality: u8,
    r: Result<PackageOutcome, CompressError>,
) -> bool {
    &&& (match r {
        Ok(out) => ok_post(input, quality, out),
        Err(e) => e != CompressError::UnsupportedContainer && e != CompressError::OpenError,
    })
    &&& (zip_parse(input) is None ==> r is Err)
    &&& (!zip_opens(input) ==> r == Err::<PackageOutcome, CompressError>(
        CompressError::ArchiveFormatError,
    ))
    &&& (r == Err::<PackageOutcome, CompressError>(CompressError::ArchiveFormatError) ==> zip_parse(
        input,
    ) is None)
    &&& (r == Err::<PackageOutcome, CompressError>(CompressError::EncodingError) ==> (match zip_parse(
        input,
    ) {
        Some(inp) => !all_texts_valid(inp),
        None => true,
    }))
    &&& (match zip_parse(input) {
        Some(inp) => all_texts_valid(inp) ==> (r is Ok || r == Err::<
            PackageOutcome,
            CompressError,
        >(CompressError::OutputError) || r == Err::<PackageOutcome, CompressError>(
            CompressError::FinalizeError,
        )),
        None => true,
    })
    &&& (match zip_parse(input) {
        Some(inp) => (distinct_names(inp) && names_fit(inp) && entries_fit(inp)
            && !all_texts_valid(inp)) ==> r == Err::<PackageOutcome, CompressError>(
            CompressError::EncodingError,
        ),
        None => true,
    })
    &&& (match zip_parse(input) {
        Some(inp) => (all_texts_valid(inp) && distinct_names(inp) && names_fit(inp)
            && entries_fit(inp)) ==> r is Ok,
        None => true,
    })
}

proof fn lemma_fresh_name(
    entries: Seq<(Seq<u8>, Seq<u8>)>,
    writer: Seq<(Seq<u8>, Seq<u8>)>,
    i: int,
    quality: u8,
)
    requires
        0 <= i < entries.len(),
        writer.len() == i,
        forall|j: int| 0 <= j < i ==> #[trigger] entry_transformed(entries[j], writer[j], quality),
        distinct_names(entries),
    ensures
        forall|j: int| 0 <= j < writer.len() ==> (#[trigger] writer[j]).0 != entries[i].0,
{
    assert forall|j: int| 0 <= j < writer.len() implies (#[trigger] writer[j]).0 != entries[i].0 by {
        assert(entry_transformed(entries[j], writer[j], quality));
        assert(entries[j].0 != entries[i].0);
    }
}

proof fn lemma_writer_fits(
    entries: Seq<(Seq<u8>, Seq<u8>)>,
    writer: Seq<(Seq<u8>, Seq<u8>)>,
    i: int,
    quality: u8,
)
    requires
        0 <= i <= entries.len(),
        writer.len() == i,
        forall|j: int| 0 <= j < i ==> #[trigger] entry_transformed(entries[j], writer[j], quality),
        entries_fit(entries),
        names_fit(entries),
    ensures
        forall|j: int| 0 <= j < writer.len() ==> (#[trigger] writer[j]).1.len() <= 0xF000_0000,
        forall|j: int| 0 <= j < writer.len() ==> (#[trigger] writer[j]).0.len() <= 65535,
{
    assert forall|j: int| 0 <= j < writer.len() implies (#[trigger] writer[j]).1.len()
        <= 0xF000_0000 && writer[j].0.len() <= 65535 by {
        assert(entry_transformed(entries[j], writer[j], quality));
        crate::minify::lemma_minify_shrinks(entries[j].1);
        assert(entries[j].1.len() <= 0xF000_0000);
        assert(entries[j].0.len() <= 65535);
    }
}

proof fn lemma_out_counts_prefix(
    inp: Seq<(Seq<u8>, Seq<u8>)>,
    outp1: Seq<(Seq<u8>, Seq<u8>)>,
    outp2: Seq<(Seq<u8>, Seq<u8>)>,
    i: int,
)
    requires
        0 <= i,
        forall|j: int| 0 <= j < i ==> outp1[j] == outp2[j],
    ensures
        compressed_count_upto(inp, outp1, i) == compressed_count_upto(inp, outp2, i),
        image_saved_upto(inp, outp1, i) == image_saved_upto(inp, outp2, i),
    decreases i,
{
    if i > 0 {
        lemma_out_counts_prefix(inp, outp1, outp2, i - 1);
    }
}

proof fn lemma_image_count_range(entries: Seq<(Seq<u8>, Seq<u8>)>, i: int)
    requires
        0 <= i,
    ensures
        0 <= image_count_upto(entries, i) <= i,
    decreases i,
{
    if i > 0 {
        lemma_image_count_range(entries, i - 1);
    }
}

proof fn lemma_image_count_mono(entries: Seq<(Seq<u8>, Seq<u8>)>, a: int, b: int)
    requires
        0 <= a <= b,
    ensures
        image_count_upto(entries, a) <= image_count_upto(entries, b),
    decreases b,
{
    if a < b {
        lemma_image_count_mono(entries, a, b - 1);
        lemma_image_count_range(entries, b - 1);
    }
}

/// Rewrite one package held in memory.  The classification, transformation
/// and accounting of every entry is stated by `compress_post`; the progress
/// callback is invoked once per image entry, with a strictly increasing
/// count and the constant total of image entries.
#[verifier::loop_isolation(false)]
#[verifier::rlimit(100)]
pub fn compress_pptx_with_quality<F: Fn(usize, usize)>(
    input: &Vec<u8>,
    quality_percent: u8,
    progress_callback: F,
) -> (r: Result<PackageOutcome, CompressError>)
    requires
        quality_percent <= 100,
        forall|p: usize, t: usize| 1 <= p <= t ==> call_requires(progress_callback, (p, t)),
    ensures
        compress_post(input@, quality_percent, r),
{
    let mut archive = match open_archive(input) {
        Ok(a) => a,
        Err(_) => {
            return Err(CompressError::ArchiveFormatError);
        },
    };
    let ghost entries = archive_entries(archive);
    let n = archive_len(&archive);
    // Pre-scan: count the image entries so that progress can be reported
    // against a fixed total.
    let mut total_images: usize = 0;
    let mut i: usize = 0;
    while i < n
        invariant
            0 <= i <= n,
            total_images == image_count_upto(entries, i as int),
            total_images <= i,
        decreases n - i,
    {
        match entry_name_at(&archive, i) {
            Some(name) => {
                if is_image_file(&name) {
                    total_images += 1;
                }
            },
            None => {
                proof {
                    assert(false);
                }
            },
        }
        i += 1;
    }
    // Transform pass, in source order.
    let mut w = new_writer();
    let mut stats = CompressionStats::default();
    let mut processed_images: usize = 0;
    let ghost mut calls: Seq<(int, int)> = Seq::empty();
    let mut i: usize = 0;
    while i < n
        invariant
            0 <= i <= n,
            archive_entries(archive) == entries,
            (zip_parse(input@) is Some) <==> (forall|k: int|
                0 <= k < entries.len() ==> entry_ok(archive, k)),
            zip_parse(input@) matches Some(s) ==> s == entries,
            forall|k: int| 0 <= k < i ==> entry_ok(archive, k),
            writer_entries(w).len() == i,
            forall|j: int|
                0 <= j < i ==> #[trigger] entry_transformed(
                    entries[j],
                    writer_entries(w)[j],
                    quality_percent,
                ),
            stats.total_files == i,
            stats.xml_files == text_count_upto(entries, i as int),
            stats.xml_files <= i,
            stats.xml_saved == xml_saved_upto(entries, i as int),
            processed_images == image_count_upto(entries, i as int),
            processed_images <= i,
            stats.images_compressed == compressed_count_upto(entries, writer_entries(w), i as int),
            stats.images_compressed <= i,
            stats.images_skipped == image_count_upto(entries, i as int) - compressed_count_upto(
                entries,
                writer_entries(w),
                i as int,
            ),
            stats.images_skipped <= i,
            stats.image_saved == image_saved_upto(entries, writer_entries(w), i as int),
            total_images == image_count_upto(entries, n as int),
            calls == progress_pairs_upto(entries, i as int),
        decreases n - i,
    {
        let ghost writer_before = writer_entries(w);
        let (name, data) = match read_entry(&mut archive, i) {
            Ok(e) => e,
            Err(_) => {
                return Err(CompressError::ArchiveFormatError);
            },
        };
        match classify_name(&name) {
            EntryKind::TextPart => {
                if !is_valid_utf8(&data) {
                    return Err(CompressError::EncodingError);
                }
                let optimized = optimize_xml(&data);
                let saved: usize = if optimized.len() <= data.len() {
                    data.len() - optimized.len()
                } else {
                    0
                };
                stats.xml_files += 1;
                stats.xml_saved = sat_add(stats.xml_saved, saved);
                match write_entry(&mut w, &name, &optimized, 9) {
                    Ok(_) => {},
                    Err(_) => {
                        proof {
                            if zip_parse(input@) is Some {
                                let inp = zip_parse(input@)->0;
                                if distinct_names(inp) && names_fit(inp) && entries_fit(inp) {
                                    lemma_fresh_name(entries, writer_before, i as int, quality_percent);
                                    lemma_writer_fits(entries, writer_before, i as int, quality_percent);
                                    crate::minify::lemma_minify_shrinks(entries[i as int].1);
                                    assert(entries[i as int].1.len() <= 0xF000_0000);
                                    assert(entries[i as int].0.len() <= 65535);
                                    assert(false);
                                }
                            }
                        }
                        return Err(CompressError::OutputError);
                    },
                }
            },
            EntryKind::Image => {
                processed_images += 1;
                proof {
                    lemma_image_count_mono(entries, i + 1 as int, n as int);
                    calls = calls.push((processed_images as int, total_images as int));
                }
                progress_callback(processed_images, total_images);
                match compress_image(&data, quality_percent) {
                    Ok(img) => {
                        let saved: usize = data.len() - img.len();
                        stats.images_compressed += 1;
                        stats.image_saved = sat_add(stats.image_saved, saved);
                        match write_entry(&mut w, &name, &img, 9) {
                            Ok(_) => {},
                            Err(_) => {
                                proof {
                                    if zip_parse(input@) is Some {
                                        let inp = zip_parse(input@)->0;
                                        if distinct_names(inp) && names_fit(inp) && entries_fit(
                                            inp,
                                        ) {
                                            lemma_fresh_name(
                                                entries,
                                                writer_before,
                                                i as int,
                                                quality_percent,
                                            );
                                            lemma_writer_fits(
                                                entries,
                                                writer_before,
                                                i as int,
                                                quality_percent,
                                            );
                                            assert(entries[i as int].1.len() <= 0xF000_0000);
                                            assert(entries[i as int].0.len() <= 65535);
                                            assert(false);
                                        }
                                    }
                                }
                                return Err(CompressError::OutputError);
                            },
                        }
                        proof {
                            assert(img@.len() != entries[i as int].1.len());
                            assert(img@ != entries[i as int].1);
                            assert(img@ == recoded_or_original(
                                entries[i as int].1,
                                quality_percent,
                            ));
                        }
                    },
                    Err(_) => {
                        stats.images_skipped += 1;
                        proof {
                            assert(data@ == recoded_or_original(
                                entries[i as int].1,
                                quality_percent,
                            ));
                        }
                        match write_entry(&mut w, &name, &data, 9) {
                            Ok(_) => {},
                            Err(_) => {
                                proof {
                                    if zip_parse(input@) is Some {
                                        let inp = zip_parse(input@)->0;
                                        if distinct_names(inp) && names_fit(inp) && entries_fit(
                                            inp,
                                        ) {
                                            lemma_fresh_name(
                                                entries,
                                                writer_before,
                                                i as int,
                                                quality_percent,
                                            );
                                            lemma_writer_fits(
                                                entries,
                                                writer_before,
                                                i as int,
                                                quality_percent,
                                            );
                                            assert(entries[i as int].1.len() <= 0xF000_0000);
                                            assert(entries[i as int].0.len() <= 65535);
                                            assert(false);
                                        }
                                    }
                                }
                                return Err(CompressError::OutputError);
                            },
                        }
                    },
                }
            },
            EntryKind::Opaque => {
                match write_entry(&mut w, &name, &data, 9) {
                    Ok(_) => {},
                    Err(_) => {
                        proof {
                            if zip_parse(input@) is Some {
                                let inp = zip_parse(input@)->0;
                                if distinct_names(inp) && names_fit(inp) && entries_fit(inp) {
                                    lemma_fresh_name(entries, writer_before, i as int, quality_percent);
                                    lemma_writer_fits(entries, writer_before, i as int, quality_percent);
                                    assert(entries[i as int].1.len() <= 0xF000_0000);
                                    assert(entries[i as int].0.len() <= 65535);
                                    assert(false);
                                }
                            }
                        }
                        return Err(CompressError::OutputError);
                    },
                }
            },
        }
        proof {
            lemma_out_counts_prefix(entries, writer_before, writer_entries(w), i as int);
        }
        stats.total_files += 1;
        i += 1;
    }
    proof {
        assert(forall|k: int| 0 <= k < entries.len() ==> entry_ok(archive, k));
        assert(zip_parse(input@) is Some);
        assert forall|j: int|
            0 <= j < entries.len() && classify(#[trigger] entries[j].0)
                == EntryKind::TextPart implies valid_utf8(entries[j].1) by {
            assert(entry_transformed(entries[j], writer_entries(w)[j], quality_percent));
        }
        assert(all_texts_valid(entries));
    }
    let ghost written = writer_entries(w);
    let out_bytes = match finish_writer(w) {
        Ok(b) => b,
        Err(_) => {
            proof {
                let inp = zip_parse(input@)->0;
                if distinct_names(inp) && names_fit(inp) && entries_fit(inp) {
                    lemma_writer_fits(entries, written, n as int, quality_percent);
                    assert(false);
                }
            }
            return Err(CompressError::FinalizeError);
        },
    };
    let outcome = PackageOutcome { data: out_bytes, stats };
    proof {
        let inp = zip_parse(input@)->0;
        let outp = zip_parse(outcome.data@)->0;
        assert(inp == entries);
        assert(outp == written);
        assert(forall|j: int|
            0 <= j < inp.len() ==> #[trigger] entry_transformed(inp[j], outp[j], quality_percent));
    }
    Ok(outcome)
}

/// Saturating addition on `usize`.
fn sat_add(a: usize, b: usize) -> (r: usize)
    ensures
        r as int == sat_add_int(a as int, b as int),
{
    if a <= usize::MAX - b {
        a + b
    } else {
        usize::MAX
    }
}

/// Rewrite a package at the default quality, reporting no progress.
pub fn compress_pptx(input: &Vec<u8>) -> (r: Result<PackageOutcome, CompressError>)
    ensures
        compress_post(input@, 80, r),
{
    compress_pptx_with_quality(input, 80, |_p: usize, _t: usize| {})
}

/// Rewrite a package named by `file_name`: a name of neither supported
/// container kind is refused before the input bytes are touched.
pub fn compress_package_with_quality<F: Fn(usize, usize)>(
    file_name: &Vec<u8>,
    input: &Vec<u8>,
    quality_percent: u8,
    progress_callback: F,
) -> (r: Result<PackageOutcome, CompressError>)
    requires
        quality_percent <= 100,
        forall|p: usize, t: usize| 1 <= p <= t ==> call_requires(progress_callback, (p, t)),
    ensures
        !is_container_name(file_name@) ==> r == Err::<PackageOutcome, CompressError>(
            CompressError::UnsupportedContainer,
        ),
        is_container_name(file_name@) ==> compress_post(input@, quality_percent, r),
{
    if !is_container_file(file_name) {
        return Err(CompressError::UnsupportedContainer);
    }
    compress_pptx_with_quality(input, quality_percent, progress_callback)
}

/// The pairs handed to the progress callback while the first `i` entries are
/// processed: one pair per image entry, carrying the running count and the
/// archive-wide total.
pub open spec fn progress_pairs_upto(entries: Seq<(Seq<u8>, Seq<u8>)>, i: int) -> Seq<(int, int)>
    decreases i,
{
    if i <= 0 {
        Seq::empty()
    } else {
        let prev = progress_pairs_upto(entries, i - 1);
        if classify(entries[i - 1].0) == EntryKind::Image {
            prev.push((image_count_upto(entries, i), image_count(entries)))
        } else {
            prev
        }
    }
}

/// All pairs handed to the progress callback across one rewrite.
pub open spec fn progress_pairs(entries: Seq<(Seq<u8>, Seq<u8>)>) -> Seq<(int, int)> {
    progress_pairs_upto(entries, entries.len() as int)
}

proof fn lemma_progress_pairs_upto(entries: Seq<(Seq<u8>, Seq<u8>)>, i: int)
    requires
        0 <= i,
    ensures
        progress_pairs_upto(entries, i).len() == image_count_upto(entries, i),
        forall|k: int|
            0 <= k < progress_pairs_upto(entries, i).len() ==> progress_pairs_upto(entries, i)[k]
                == (k + 1, image_count(entries)),
    decreases i,
{
    if i > 0 {
        lemma_progress_pairs_upto(entries, i - 1);
    }
}

/// Progress is monotone: across one rewrite of an archive the callback sees
/// exactly the pairs `(1, T), (2, T), ..., (T, T)`, where `T` is the number
/// of image-classified entries — the running count starts at one, rises by
/// exactly one per invocation, and the reported total never changes.
pub proof fn lemma_progress_monotone(entries: Seq<(Seq<u8>, Seq<u8>)>)
    ensures
        progress_pairs(entries).len() == image_count(entries),
        forall|k: int|
            0 <= k < progress_pairs(entries).len() ==> progress_pairs(entries)[k] == (
                k + 1,
                image_count(entries),
            ),
{
    lemma_progress_pairs_upto(entries, entries.len() as int);
}

} // verus!
