use kobo_library::epub::{attribute_named, element_text, first_element, package_path};
use std::io::{Cursor, Write};

use kobo_library::epub::{extract_metadata, is_kepub, validate_archive};
use kobo_library::error::ErrorStatus;

fn archive(files: &[(&str, &[u8])]) -> Vec<u8> {
    let cursor = Cursor::new(Vec::<u8>::new());
    let mut writer = zip::ZipWriter::new(cursor);
    let options = zip::write::SimpleFileOptions::default();
    for (name, data) in files {
        writer.start_file(*name, options).unwrap();
        writer.write_all(data).unwrap();
    }
    writer.finish().unwrap().into_inner()
}

#[test]
fn extracts_title_and_author() {
    let bytes = archive(&[
        ("META-INF/container.xml", br#"<?xml version="1.0"?><container><rootfiles><rootfile full-path="OEBPS/content.opf"/></rootfiles></container>"#),
        ("OEBPS/content.opf", br#"<?xml version="1.0"?><package><metadata xmlns:dc="http://purl.org/dc/elements/1.1/"><dc:title>The Left Hand of Darkness</dc:title><dc:creator>Ursula K. Le Guin</dc:creator></metadata></package>"#),
    ]);
    let metadata = extract_metadata(bytes).unwrap();

    assert_eq!(metadata.title.as_deref(), Some("The Left Hand of Darkness"));
    assert_eq!(metadata.author.as_deref(), Some("Ursula K. Le Guin"));
}

#[test]
fn detects_kepub_markers() {
    let bytes = archive(&[(
        "chapter.xhtml",
        br#"<html><body><span class="koboSpan" id="kobo.1.1">Text</span></body></html>"#,
    )]);

    assert!(is_kepub(bytes).unwrap());
}

#[test]
fn rejects_excessive_entries_and_expansion() {
    let bytes = archive(&[("one", b"1234"), ("two", b"5678")]);

    assert!(validate_archive(bytes.clone(), 1, 100).is_err());
    assert!(validate_archive(bytes, 10, 7).is_err());
}

#[test]
fn archive_limits_report_their_reason() {
    let bytes = archive(&[("one", b"1234"), ("two", b"5678")]);
    let too_many = validate_archive(bytes.clone(), 1, 100).unwrap_err();
    assert_eq!(too_many.status, ErrorStatus::BadRequest);
    assert_eq!(too_many.message, "The EPUB contains too many files.");
    let too_big = validate_archive(bytes.clone(), 10, 7).unwrap_err();
    assert_eq!(too_big.message, "The EPUB expands beyond the allowed size.");
    assert!(validate_archive(bytes.clone(), 2, 8).is_ok());
    let not_zip = validate_archive(b"not a zip".to_vec(), 10, 100).unwrap_err();
    assert_eq!(not_zip.message, "The upload is not a valid EPUB archive.");
}

#[test]
fn plain_epub_has_no_kepub_markers() {
    let bytes = archive(&[
        ("chapter.xhtml", b"<html><body><p>koboSpan</p></body></html>".as_slice()),
        ("notes.txt", b"id=\"kobo.1\"".as_slice()),
    ]);
    assert!(is_kepub(bytes).unwrap());
    let plain = archive(&[
        ("chapter.xhtml", b"<html><body><p>Text</p></body></html>".as_slice()),
        ("notes.txt", b"id=\"kobo.1\"".as_slice()),
    ]);
    assert!(!is_kepub(plain).unwrap());
    let by_id = archive(&[("ch.HTM", b"<p id=\"kobo.3.1\">x</p>".as_slice())]);
    assert!(is_kepub(by_id).unwrap());
    assert_eq!(is_kepub(b"garbage".to_vec()).unwrap_err().status, ErrorStatus::InternalServerError);
}

#[test]
fn metadata_failures_have_their_answers() {
    let no_container = archive(&[("content.opf", b"<package/>".as_slice())]);
    assert_eq!(extract_metadata(no_container).unwrap_err().status, ErrorStatus::InternalServerError);

    let no_rootfile = archive(&[("META-INF/container.xml", b"<container/>".as_slice())]);
    let error = extract_metadata(no_rootfile).unwrap_err();
    assert_eq!(error.status, ErrorStatus::BadRequest);
    assert_eq!(error.message, "EPUB is missing OPF metadata path.");

    let broken = archive(&[("META-INF/container.xml", b"<container".as_slice())]);
    assert_eq!(extract_metadata(broken).unwrap_err().status, ErrorStatus::InternalServerError);
}

#[test]
fn metadata_text_is_trimmed_and_blank_text_is_absent() {
    let bytes = archive(&[
        ("META-INF/container.xml", br#"<container><rootfile full-path="p.opf"/></container>"#.as_slice()),
        ("p.opf", b"<package><title>\n  Dune \t</title><creator>   </creator></package>".as_slice()),
    ]);
    let metadata = extract_metadata(bytes).unwrap();
    assert_eq!(metadata.title.as_deref(), Some("Dune"));
    assert_eq!(metadata.author, None);
}

fn element(name: &str, attributes: Vec<(&str, &str)>, text: Option<&str>) -> kobo_library::archive::XmlNode {
    kobo_library::archive::XmlNode {
        is_element: true,
        name: name.to_string(),
        attributes: attributes
            .into_iter()
            .map(|(name, value)| kobo_library::archive::XmlAttribute {
                namespace: None,
                name: name.to_string(),
                value: value.to_string(),
            })
            .collect(),
        text: text.map(str::to_string),
    }
}

#[test]
fn parsed_documents_give_package_path_and_texts() {

    let container = vec![
        element("container", vec![], None),
        element("rootfile", vec![("full-path", "OEBPS/content.opf"), ("media-type", "x")], None),
        element("rootfile", vec![("full-path", "second.opf")], None),
    ];
    assert_eq!(first_element(&container, "rootfile"), Some(1));
    assert_eq!(first_element(&container, "missing"), None);
    assert_eq!(package_path(&container).as_deref(), Some("OEBPS/content.opf"));
    assert_eq!(attribute_named(&container[1].attributes, "media-type").as_deref(), Some("x"));

    let package = vec![
        element("package", vec![], None),
        element("title", vec![], Some("  A Title \n")),
        element("creator", vec![], Some("   ")),
    ];
    assert_eq!(element_text(&package, "title").as_deref(), Some("A Title"));
    assert_eq!(element_text(&package, "creator"), None);
    assert_eq!(package_path(&package), None);
}
