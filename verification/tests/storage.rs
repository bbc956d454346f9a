use kobo_library::storage::{validate_id, Storage};

const SHELF: &str = "1b4e28ba-2fa1-11d2-883f-0016d3cca427";
const BOOK: &str = "6ba7b810-9dad-11d1-80b4-00c04fd430c8";

#[test]
fn rejects_untrusted_storage_components() {
    let storage = Storage::new("data/shelves".to_string());
    assert!(storage.book_path("../other", BOOK).is_err());
    assert!(storage.book_path(SHELF, "../book").is_err());
}

#[test]
fn book_and_upload_paths_are_shelf_scoped() {
    let storage = Storage::new("data/shelves".to_string());
    assert_eq!(
        storage.book_path(SHELF, BOOK).unwrap(),
        format!("data/shelves/{SHELF}/books/{BOOK}.kepub.epub")
    );
    assert_eq!(storage.books_dir(SHELF).unwrap(), format!("data/shelves/{SHELF}/books"));
    assert_eq!(storage.uploads_dir(SHELF).unwrap(), format!("data/shelves/{SHELF}/uploads"));
    let upload = storage.new_upload_path(SHELF).unwrap();
    let prefix = format!("data/shelves/{SHELF}/uploads/");
    assert!(upload.starts_with(&prefix) && upload.ends_with(".epub"));
    let id = &upload[prefix.len()..upload.len() - 5];
    assert!(validate_id(id).is_ok());
    assert_ne!(storage.new_upload_path(SHELF).unwrap(), upload);
}

#[test]
fn invalid_ids_are_internal_errors() {
    let error = validate_id("not-a-uuid").unwrap_err();
    assert_eq!(error.details, "invalid internal storage id");
    assert_eq!(error.message, "Internal server error.");
    assert!(validate_id(SHELF).is_ok());
}

#[test]
fn every_uuid_form_is_an_id_and_new_book_paths_use_one() {
    assert!(validate_id("6ba7b810-9dad-11d1-80b4-00c04fd430c8").is_ok());
    assert!(validate_id("6ba7b8109dad11d180b400c04fd430c8").is_ok());
    assert!(validate_id("{6ba7b810-9dad-11d1-80b4-00c04fd430c8}").is_ok());
    assert!(validate_id("URN:uuid:6ba7b810-9dad-11d1-80b4-00c04fd430c8").is_ok());
    assert!(validate_id("6ba7b810-9dad-11d1-80b4-00c04fd430cg").is_err());
    assert!(validate_id("6ba7b810x9dad-11d1-80b4-00c04fd430c8").is_err());

    let storage = Storage::new("data/shelves".to_string());
    let (id, path) = storage.new_book_path(SHELF).unwrap();
    assert!(validate_id(&id).is_ok());
    assert_eq!(path, format!("data/shelves/{SHELF}/books/{id}.kepub.epub"));
    assert!(storage.new_book_path("../other").is_err());
}
