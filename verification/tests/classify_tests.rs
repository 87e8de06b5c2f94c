use pptx_shrink::classify::EntryKind;
use pptx_shrink::classify::classify_name;
use pptx_shrink::classify::is_container_file;
use pptx_shrink::classify::is_image_file;
use pptx_shrink::classify::is_text_file;

#[test]
fn test_is_image_file() {
    assert!(is_image_file(&b"slide1/media/image1.png".to_vec()));
    assert!(is_image_file(&b"ppt/media/image2.JPG".to_vec()));
    assert!(!is_image_file(&b"slide1.xml".to_vec()));
}

#[test]
fn classification_is_total_and_by_suffix() {
    assert_eq!(classify_name(&b"ppt/slides/slide1.xml".to_vec()), EntryKind::TextPart);
    assert_eq!(classify_name(&b"_rels/.rels".to_vec()), EntryKind::TextPart);
    assert_eq!(classify_name(&b"ppt/media/image1.png".to_vec()), EntryKind::Image);
    assert_eq!(classify_name(&b"ppt/media/pic.jpeg".to_vec()), EntryKind::Image);
    assert_eq!(classify_name(&b"ppt/media/pic.gif".to_vec()), EntryKind::Image);
    assert_eq!(classify_name(&b"ppt/media/pic.bmp".to_vec()), EntryKind::Image);
    assert_eq!(classify_name(&b"ppt/media/pic.emf".to_vec()), EntryKind::Image);
    assert_eq!(classify_name(&b"ppt/media/pic.wmf".to_vec()), EntryKind::Image);
    assert_eq!(classify_name(&b"docProps/thumbnail.bin".to_vec()), EntryKind::Opaque);
    assert_eq!(classify_name(&b"".to_vec()), EntryKind::Opaque);
    assert_eq!(classify_name(&b"png".to_vec()), EntryKind::Opaque);
}

#[test]
fn classification_ignores_ascii_case() {
    assert_eq!(classify_name(&b"a/SLIDE.XML".to_vec()), EntryKind::TextPart);
    assert_eq!(classify_name(&b"a/REL.RELS".to_vec()), EntryKind::TextPart);
    assert_eq!(classify_name(&b"a/PIC.PnG".to_vec()), EntryKind::Image);
    assert_eq!(classify_name(&b"a/PIC.Jpg".to_vec()), EntryKind::Image);
}

#[test]
fn classification_is_deterministic() {
    let name = b"ppt/media/image1.png".to_vec();
    assert_eq!(classify_name(&name), classify_name(&name));
    assert!(is_image_file(&name));
    assert!(is_image_file(&name));
    assert!(!is_text_file(&name));
}

#[test]
fn container_names() {
    assert!(is_container_file(&b"talk.pptx".to_vec()));
    assert!(is_container_file(&b"paper.DOCX".to_vec()));
    assert!(!is_container_file(&b"notes.txt".to_vec()));
    assert!(!is_container_file(&b"archive.zip".to_vec()));
}
