//! Entry classification: an archive member name is mapped to one of
//! text part, raster image or opaque blob, purely from its case-insensitive
//! suffix.  Names are byte strings; extensions are ASCII, written here by
//! their ASCII codes because Verus takes no character literals.
use vstd::prelude::*;

verus! {

/// What an archive member is, judged from its name alone.
#[derive(Clone, Copy, PartialEq, Eq, Structural, Debug)]
pub enum EntryKind {
    /// Document-structure or relationship XML (`.xml`, `.rels`).
    TextPart,
    /// An embedded raster image.
    Image,
    /// Anything else: copied through unchanged.
    Opaque,
}

/// ASCII lower-casing of one byte; other bytes are untouched.
pub open spec fn ascii_lower(b: u8) -> u8 {
    if 65 <= b && b <= 90 {
        (b + 32) as u8
    } else {
        b
    }
}

/// The name with every ASCII letter lower-cased.
pub open spec fn lower_name(s: Seq<u8>) -> Seq<u8> {
    s.map_values(|b: u8| ascii_lower(b))
}

/// `name` ends with `suffix`, compared byte-wise without regard to ASCII case.
pub open spec fn suffix_matches_ci(name: Seq<u8>, suffix: Seq<u8>) -> bool {
    &&& name.len() >= suffix.len()
    &&& forall|k: int|
        0 <= k < suffix.len() ==> ascii_lower(name[name.len() - suffix.len() + k])
            == ascii_lower(suffix[k])
}

/// `.xml`
pub open spec fn ext_xml() -> Seq<u8> {
    seq![46u8, 120u8, 109u8, 108u8]
}

/// `.rels`
pub open spec fn ext_rels() -> Seq<u8> {
    seq![46u8, 114u8, 101u8, 108u8, 115u8]
}

/// `.png`
pub open spec fn ext_png() -> Seq<u8> {
    seq![46u8, 112u8, 110u8, 103u8]
}

/// `.jpg`
pub open spec fn ext_jpg() -> Seq<u8> {
    seq![46u8, 106u8, 112u8, 103u8]
}

/// `.jpeg`
pub open spec fn ext_jpeg() -> Seq<u8> {
    seq![46u8, 106u8, 112u8, 101u8, 103u8]
}

/// `.gif`
pub open spec fn ext_gif() -> Seq<u8> {
    seq![46u8, 103u8, 105u8, 102u8]
}

/// `.bmp`
pub open spec fn ext_bmp() -> Seq<u8> {
    seq![46u8, 98u8, 109u8, 112u8]
}

/// `.emf`
pub open spec fn ext_emf() -> Seq<u8> {
    seq![46u8, 101u8, 109u8, 102u8]
}

/// `.wmf`
pub open spec fn ext_wmf() -> Seq<u8> {
    seq![46u8, 119u8, 109u8, 102u8]
}

/// `.docx`
pub open spec fn ext_docx() -> Seq<u8> {
    seq![46u8, 100u8, 111u8, 99u8, 120u8]
}

/// `.pptx`
pub open spec fn ext_pptx() -> Seq<u8> {
    seq![46u8, 112u8, 112u8, 116u8, 120u8]
}

/// The name denotes a raster image entry.
pub open spec fn is_image_name(s: Seq<u8>) -> bool {
    ||| suffix_matches_ci(s, ext_png())
    ||| suffix_matches_ci(s, ext_jpg())
    ||| suffix_matches_ci(s, ext_jpeg())
    ||| suffix_matches_ci(s, ext_gif())
    ||| suffix_matches_ci(s, ext_bmp())
    ||| suffix_matches_ci(s, ext_emf())
    ||| suffix_matches_ci(s, ext_wmf())
}

/// The name denotes a text part.
pub open spec fn is_text_name(s: Seq<u8>) -> bool {
    suffix_matches_ci(s, ext_xml()) || suffix_matches_ci(s, ext_rels())
}

/// Total, deterministic classification of an entry name.
pub open spec fn classify(name: Seq<u8>) -> EntryKind {
    if is_text_name(name) {
        EntryKind::TextPart
    } else if is_image_name(name) {
        EntryKind::Image
    } else {
        EntryKind::Opaque
    }
}

/// The file name denotes a supported container kind.
pub open spec fn is_container_name(s: Seq<u8>) -> bool {
    suffix_matches_ci(s, ext_docx()) || suffix_matches_ci(s, ext_pptx())
}

fn byte_lower(b: u8) -> (r: u8)
    ensures
        r == ascii_lower(b),
{
    if 65 <= b && b <= 90 {
        b + 32
    } else {
        b
    }
}

/// Does `name` end with the four bytes `s0 s1 s2 s3`, ignoring ASCII case?
fn ends_with_ci4(name: &Vec<u8>, s0: u8, s1: u8, s2: u8, s3: u8) -> (r: bool)
    ensures
        r == suffix_matches_ci(name@, seq![s0, s1, s2, s3]),
{
    let n = name.len();
    if n < 4 {
        return false;
    }
    let r = byte_lower(name[n - 4]) == byte_lower(s0) && byte_lower(name[n - 3]) == byte_lower(s1)
        && byte_lower(name[n - 2]) == byte_lower(s2) && byte_lower(name[n - 1]) == byte_lower(s3);
    proof {
        let suffix = seq![s0, s1, s2, s3];
        if r {
            assert forall|k: int| 0 <= k < suffix.len() implies ascii_lower(
                name@[name@.len() - suffix.len() + k],
            ) == ascii_lower(suffix[k]) by {
                if k == 0 {
                } else if k == 1 {
                } else if k == 2 {
                } else {
                    assert(k == 3);
                }
            }
        }
    }
    r
}

/// Does `name` end with the five bytes `s0 s1 s2 s3 s4`, ignoring ASCII case?
fn ends_with_ci5(name: &Vec<u8>, s0: u8, s1: u8, s2: u8, s3: u8, s4: u8) -> (r: bool)
    ensures
        r == suffix_matches_ci(name@, seq![s0, s1, s2, s3, s4]),
{
    let n = name.len();
    if n < 5 {
        return false;
    }
    let r = byte_lower(name[n - 5]) == byte_lower(s0) && byte_lower(name[n - 4]) == byte_lower(s1)
        && byte_lower(name[n - 3]) == byte_lower(s2) && byte_lower(name[n - 2]) == byte_lower(s3)
        && byte_lower(name[n - 1]) == byte_lower(s4);
    proof {
        let suffix = seq![s0, s1, s2, s3, s4];
        if r {
            assert forall|k: int| 0 <= k < suffix.len() implies ascii_lower(
                name@[name@.len() - suffix.len() + k],
            ) == ascii_lower(suffix[k]) by {
                if k == 0 {
                } else if k == 1 {
                } else if k == 2 {
                } else if k == 3 {
                } else {
                    assert(k == 4);
                }
            }
        }
    }
    r
}

/// Is the entry name that of a raster image file?
pub fn is_image_file(filename: &Vec<u8>) -> (r: bool)
    ensures
        r == is_image_name(filename@),
{
    ends_with_ci4(filename, 46, 112, 110, 103) || ends_with_ci4(filename, 46, 106, 112, 103)
        || ends_with_ci5(filename, 46, 106, 112, 101, 103) || ends_with_ci4(
        filename,
        46,
        103,
        105,
        102,
    ) || ends_with_ci4(filename, 46, 98, 109, 112) || ends_with_ci4(filename, 46, 101, 109, 102)
        || ends_with_ci4(filename, 46, 119, 109, 102)
}

/// Is the entry name that of a text part?
pub fn is_text_file(filename: &Vec<u8>) -> (r: bool)
    ensures
        r == is_text_name(filename@),
{
    ends_with_ci4(filename, 46, 120, 109, 108) || ends_with_ci5(filename, 46, 114, 101, 108, 115)
}

/// Classify an entry name.
pub fn classify_name(filename: &Vec<u8>) -> (k: EntryKind)
    ensures
        k == classify(filename@),
{
    if is_text_file(filename) {
        EntryKind::TextPart
    } else if is_image_file(filename) {
        EntryKind::Image
    } else {
        EntryKind::Opaque
    }
}

/// Is the file name that of a supported container (`.docx` or `.pptx`)?
pub fn is_container_file(filename: &Vec<u8>) -> (r: bool)
    ensures
        r == is_container_name(filename@),
{
    ends_with_ci5(filename, 46, 100, 111, 99, 120) || ends_with_ci5(filename, 46, 112, 112, 116, 120)
}

/// Classification is a pure function of the lower-cased name: lower-casing
/// the name first changes nothing, and in particular two names that differ
/// only in ASCII case are classified alike.
pub proof fn lemma_classify_case_insensitive(name: Seq<u8>)
    ensures
        classify(lower_name(name)) == classify(name),
{
    assert(lower_name(name).len() == name.len());
    assert forall|suffix: Seq<u8>| #[trigger] suffix_matches_ci(lower_name(name), suffix)
        == suffix_matches_ci(name, suffix) by {
        lemma_suffix_ci_lower(name, suffix);
    }
}

proof fn lemma_suffix_ci_lower(name: Seq<u8>, suffix: Seq<u8>)
    ensures
        suffix_matches_ci(lower_name(name), suffix) == suffix_matches_ci(name, suffix),
{
    let low = lower_name(name);
    assert(low.len() == name.len());
    assert forall|k: int| 0 <= k < low.len() implies ascii_lower(low[k]) == ascii_lower(
        name[k],
    ) by {
        assert(low[k] == ascii_lower(name[k]));
    }
}

} // verus!
