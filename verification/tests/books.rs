use kobo_library::books::{header_safe_filename, kobo_filename, title_from_filename, Book, PublicBook};

#[test]
fn converts_epub_filename_to_kepub() {
    assert_eq!(kobo_filename("Dune.epub"), "Dune.kepub.epub");
}

#[test]
fn keeps_existing_kepub_filename() {
    assert_eq!(kobo_filename("Dune.kepub.epub"), "Dune.kepub.epub");
}

#[test]
fn removes_header_unsafe_characters() {
    assert_eq!(header_safe_filename("bad\"\\\r\n.epub"), "bad____.epub");
}

#[test]
fn kobo_filename_sanitises_and_collapses_spaces() {
    assert_eq!(kobo_filename("  My   Book!.EPUB "), "My Book_.kepub.epub");
    assert_eq!(kobo_filename("Ünïcode/../x.epub"), "_n_code_.._x.kepub.epub");
}

#[test]
fn kobo_filename_keeps_upper_case_kepub_suffix() {
    assert_eq!(kobo_filename("Dune.KEPUB.EPUB"), "Dune.KEPUB.EPUB");
}

#[test]
fn kobo_filename_falls_back_and_appends() {
    assert_eq!(kobo_filename(""), "book.kepub.epub");
    assert_eq!(kobo_filename("   "), "book.kepub.epub");
    assert_eq!(kobo_filename("notes.txt"), "notes.txt.kepub.epub");
    assert_eq!(kobo_filename(".epub"), ".kepub.epub");
}

#[test]
fn kobo_filename_is_idempotent_on_examples() {
    for name in ["Dune.epub", "  a  b.EPUB", "x", "../../etc/passwd", "Dune.KEPUB.EPUB", ""] {
        let once = kobo_filename(name);
        assert_eq!(kobo_filename(&once), once);
        assert_eq!(header_safe_filename(&once), once);
    }
}

#[test]
fn title_drops_only_the_exact_kepub_suffix() {
    assert_eq!(title_from_filename("Dune.kepub.epub"), "Dune");
    assert_eq!(title_from_filename("Dune.KEPUB.EPUB"), "Dune.KEPUB.EPUB");
    assert_eq!(title_from_filename("Dune.epub"), "Dune.epub");
    assert_eq!(title_from_filename(".kepub.epub"), "");
}

#[test]
fn public_book_links_to_its_download() {
    let book = Book {
        id: "abc".to_string(),
        shelf_id: "shelf".to_string(),
        status: "ready".to_string(),
        title: "Dune".to_string(),
        author: Some("Herbert".to_string()),
        filename: "Dune.kepub.epub".to_string(),
        original_name: "Dune.epub".to_string(),
        stored_filename: "abc.kepub.epub".to_string(),
        size: 10,
        uploaded_at: 0,
    };
    let public = PublicBook::from_book(&book);
    assert_eq!(public.id, "abc");
    assert_eq!(public.title, "Dune");
    assert_eq!(public.author.as_deref(), Some("Herbert"));
    assert_eq!(public.download_url, "/books/abc/download");
}
