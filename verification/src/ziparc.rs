//! The ZIP container, seen through the `zip` crate.  An archive in memory is
//! modelled as a sequence of entries, each a pair of name bytes and data
//! bytes; `zip_parse` names the full extraction of a byte stream, which on an
//! in-memory buffer is a deterministic function of the bytes.
//!
//! Everything here is a trusted declaration or a thin wrapper around one
//! operation of the `zip` crate; the archive rewriting logic that uses them
//! is verified elsewhere.
use vstd::prelude::*;
use vstd::utf8::valid_utf8;
use std::io::Cursor;
use zip::CompressionMethod;
use zip::ZipArchive;
use zip::ZipWriter;
use zip::result::ZipError;
use zip::write::SimpleFileOptions;

verus! {

#[verifier::external_type_specification]
#[verifier::external_body]
#[verifier::reject_recursive_types(T)]
pub struct ExCursor<T>(Cursor<T>);

#[verifier::external_type_specification]
#[verifier::external_body]
#[verifier::reject_recursive_types(R)]
pub struct ExZipArchive<R>(ZipArchive<R>);

#[verifier::external_type_specification]
#[verifier::external_body]
pub struct ExZipError(ZipError);

/// A destination archive under construction in memory.  `zip::ZipWriter`'s
/// own generic bounds are traits Verus does not know, so the writer is held
/// opaquely in a field instead of being declared.
#[verifier::external_body]
pub struct PackageWriter {
    inner: ZipWriter<Cursor<Vec<u8>>>,
}

/// The entries an opened archive holds: for each, its name bytes and its
/// uncompressed data bytes.
pub uninterp spec fn archive_entries(a: ZipArchive<Cursor<Vec<u8>>>) -> Seq<(Seq<u8>, Seq<u8>)>;

/// Whether entry `i` of the opened archive can be extracted.  Extraction
/// from an in-memory buffer is deterministic, so this is a property of the
/// archive value.
pub uninterp spec fn entry_ok(a: ZipArchive<Cursor<Vec<u8>>>, i: int) -> bool;

/// What full extraction of a ZIP byte stream yields: `Some` of the entry
/// sequence when opening and reading every entry succeeds, `None` otherwise.
pub uninterp spec fn zip_parse(data: Seq<u8>) -> Option<Seq<(Seq<u8>, Seq<u8>)>>;

/// Whether the byte stream's central directory parses, so that an archive
/// can be opened over it at all.  Deterministic on an in-memory buffer.
pub uninterp spec fn zip_opens(data: Seq<u8>) -> bool;

/// The entries written so far into an archive under construction.
pub uninterp spec fn writer_entries(w: PackageWriter) -> Seq<(Seq<u8>, Seq<u8>)>;

/// Relies on `zip::ZipArchive::new`: reads the central directory of the byte
/// stream.  It succeeds whenever full extraction would, and the archive it
/// returns holds the extractable entries of `data`.
#[verifier::external_body]
pub(crate) fn open_archive(data: &Vec<u8>) -> (r: Result<
    ZipArchive<Cursor<Vec<u8>>>,
    ZipError,
>)
    ensures
        r is Ok <==> zip_opens(data@),
        zip_parse(data@) is Some ==> r is Ok,
        r matches Ok(a) ==> ((zip_parse(data@) is Some) <==> (forall|i: int|
            0 <= i < archive_entries(a).len() ==> entry_ok(a, i))),
        r matches Ok(a) ==> (zip_parse(data@) is Some ==> zip_parse(data@) == Some(
            archive_entries(a),
        )),
{
    ZipArchive::new(Cursor::new(data.clone()))
}

/// Relies on `zip::ZipArchive::len`: the number of entries the central
/// directory lists.
#[verifier::external_body]
pub(crate) fn archive_len(a: &ZipArchive<Cursor<Vec<u8>>>) -> (r: usize)
    ensures
        r == archive_entries(*a).len(),
{
    a.len()
}

/// Relies on `zip::ZipArchive::name_for_index`: the stored name of entry
/// `i`, present exactly for valid indices.  The name is the crate's decoded
/// form, always UTF-8 (and possibly longer than the raw 16-bit-counted
/// field it was decoded from).
#[verifier::external_body]
pub(crate) fn entry_name_at(a: &ZipArchive<Cursor<Vec<u8>>>, i: usize) -> (r: Option<Vec<u8>>)
    ensures
        r is Some <==> i < archive_entries(*a).len(),
        r matches Some(name) ==> name@ == archive_entries(*a)[i as int].0 && valid_utf8(name@),
{
    a.name_for_index(i).map(|n| n.as_bytes().to_vec())
}

/// Relies on `zip::ZipArchive::by_index` and `std::io::Read::read_to_end`:
/// extracts entry `i`.  On an in-memory buffer this succeeds exactly when
/// the entry is extractable, and then yields the stored name and data; the
/// name is the crate's decoded form, always UTF-8 (and possibly longer than
/// the raw 16-bit-counted field it was decoded from).
#[verifier::external_body]
pub(crate) fn read_entry(a: &mut ZipArchive<Cursor<Vec<u8>>>, i: usize) -> (r: Result<
    (Vec<u8>, Vec<u8>),
    ZipError,
>)
    requires
        i < archive_entries(*old(a)).len(),
    ensures
        archive_entries(*final(a)) == archive_entries(*old(a)),
        forall|j: int| entry_ok(*final(a), j) == entry_ok(*old(a), j),
        r is Ok <==> entry_ok(*old(a), i as int),
        r matches Ok(e) ==> {
            &&& e.0@ == archive_entries(*old(a))[i as int].0
            &&& e.1@ == archive_entries(*old(a))[i as int].1
            &&& valid_utf8(e.0@)
        },
{
    let mut file = a.by_index(i)?;
    let name = file.name().as_bytes().to_vec();
    let mut data = Vec::new();
    std::io::Read::read_to_end(&mut file, &mut data)?;
    Ok((name, data))
}

/// Relies on `zip::ZipWriter::new`: a writer over a fresh in-memory buffer
/// holds no entries.
#[verifier::external_body]
pub(crate) fn new_writer() -> (r: PackageWriter)
    ensures
        writer_entries(r) == Seq::<(Seq<u8>, Seq<u8>)>::empty(),
{
    PackageWriter { inner: ZipWriter::new(Cursor::new(Vec::new())) }
}

/// Relies on `zip::ZipWriter::start_file` and `std::io::Write::write_all`:
/// appends one entry, stored with the Deflate method at the given level
/// (1 to 9).  On success the written archive gains exactly this entry.
/// Writing to an in-memory buffer itself cannot fail, so the call fails
/// only for a name already written or too long for the format's 16-bit
/// name-length field, or when an entry's size crosses the ZIP64 threshold,
/// which this writer does not enable.  The size bound in the success clause
/// leaves the Deflate worst case (a small fraction of expansion on
/// incompressible data) far below that threshold, for this entry and for
/// closing the previous one.
#[verifier::external_body]
pub(crate) fn write_entry(
    w: &mut PackageWriter,
    name: &Vec<u8>,
    data: &Vec<u8>,
    level: i64,
) -> (r: Result<(), ZipError>)
    requires
        valid_utf8(name@),
        1 <= level <= 9,
    ensures
        r is Ok ==> writer_entries(*final(w)) == writer_entries(*old(w)).push((name@, data@)),
        ({
            &&& forall|j: int|
                0 <= j < writer_entries(*old(w)).len() ==> (#[trigger] writer_entries(
                    *old(w),
                )[j]).0 != name@
            &&& forall|j: int|
                0 <= j < writer_entries(*old(w)).len() ==> (#[trigger] writer_entries(
                    *old(w),
                )[j]).1.len() <= 0xF000_0000
            &&& name@.len() <= 65535
            &&& data@.len() <= 0xF000_0000
        }) ==> r is Ok,
{
    let options = SimpleFileOptions::default().compression_method(
        CompressionMethod::Deflated,
    ).compression_level(Some(level));
    let name_str = core::str::from_utf8(name.as_slice()).unwrap();
    w.inner.start_file(name_str, options)?;
    std::io::Write::write_all(&mut w.inner, data.as_slice())?;
    Ok(())
}

/// Relies on `zip::ZipWriter::finish` and `std::io::Cursor::into_inner`:
/// closes the archive.  Closing only finishes the last entry and writes the
/// central directory to the in-memory buffer, where writes cannot fail; it
/// can refuse only an entry whose compressed size crossed the ZIP64
/// threshold, which the size bound below keeps out of reach of the Deflate
/// worst case.  The returned bytes extract back to exactly the entries that
/// were written; this also rests on `start_file` refusing a name already
/// present, so the written names are all distinct.
#[verifier::external_body]
pub(crate) fn finish_writer(w: PackageWriter) -> (r: Result<Vec<u8>, ZipError>)
    ensures
        (forall|j: int|
            0 <= j < writer_entries(w).len() ==> (#[trigger] writer_entries(w)[j]).1.len()
                <= 0xF000_0000) ==> r is Ok,
        r matches Ok(out) ==> zip_parse(out@) == Some(writer_entries(w)),
{
    let cursor = w.inner.finish()?;
    Ok(cursor.into_inner())
}

} // verus!
