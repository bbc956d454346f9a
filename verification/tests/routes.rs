use kobo_library::routes::shelf_qr_code;
use kobo_library::config::Config;
use kobo_library::error::ErrorStatus;
use kobo_library::observability::{Metrics, RateLimiter};
use kobo_library::routes::{
    check_access_code, check_qr_target, content_disposition, enforce_rate, escape_xml, host_has_port,
    host_with_port, is_not_modified, is_upload_field, private_headers, public_shelf_url, qr_code_image,
    ready_message, secret_matches, security_headers, shelf_etag, timestamp_secs, upload_file_name,
    with_svg_description, UploadReceiver,
};

#[test]
fn adds_configured_port_when_host_has_none() {
    assert_eq!(host_with_port("raspi.local", 3001), "raspi.local:3001");
}

#[test]
fn public_base_url_overrides_request_host() {
    let config = Config::for_test("/tmp/epub-drop-config-test", Some("https://books.example.test/base"), None);
    assert_eq!(
        public_shelf_url(&config, Some("attacker.example"), "token").unwrap(),
        "https://books.example.test/s/token/"
    );
}

#[test]
fn compares_access_codes_without_plaintext_equality() {
    assert!(secret_matches("correct horse", "correct horse"));
    assert!(!secret_matches("correct horse", "wrong"));
}

#[test]
fn request_host_is_used_without_a_public_base_url() {
    let config = Config::for_test("/tmp/kobo", None, None);
    assert_eq!(public_shelf_url(&config, Some("books.lan"), "abc").unwrap(), "http://books.lan:3001/s/abc/");
    assert_eq!(public_shelf_url(&config, Some("books.lan:80"), "abc").unwrap(), "http://books.lan:80/s/abc/");
    assert_eq!(public_shelf_url(&config, None, "abc").unwrap(), "http://raspi.local:3001/s/abc/");
}

#[test]
fn unusable_public_base_url_is_an_internal_error() {
    let config = Config::for_test("/tmp/kobo", Some("mailto:someone@example.test"), None);
    assert_eq!(public_shelf_url(&config, None, "abc").unwrap_err().status, ErrorStatus::InternalServerError);
}

#[test]
fn host_ports_are_recognised() {
    assert!(host_has_port("example.test:8080"));
    assert!(host_has_port("[::1]:8080"));
    assert!(host_has_port("example.test:+80"));
    assert!(!host_has_port("[::1]"));
    assert!(!host_has_port("::1"));
    assert!(!host_has_port("example.test:70000"));
    assert!(!host_has_port("example.test:"));
    assert!(!host_has_port("example.test"));
}

#[test]
fn host_is_trimmed_and_defaults() {
    assert_eq!(host_with_port("  ", 3001), "raspi.local:3001");
    assert_eq!(host_with_port(" books.lan:81 \t", 3001), "books.lan:81");
    assert_eq!(host_with_port("[::1]", 9), "[::1]:9");
}

#[test]
fn xml_special_characters_are_escaped() {
    assert_eq!(escape_xml("a&b<c>d\"e'f"), "a&amp;b&lt;c&gt;d&quot;e&apos;f");
}

#[test]
fn svg_description_follows_the_opening_tag() {
    let image = "<?xml?><svg width=\"1\"><rect/></svg>".to_string();
    assert_eq!(
        with_svg_description(image, "http://x/s/a&b/"),
        "<?xml?><svg width=\"1\"><desc>http://x/s/a&amp;b/</desc><rect/></svg>"
    );
    assert_eq!(with_svg_description("<png/>".to_string(), "u"), "<png/>");
}

#[test]
fn qr_code_names_its_url() {
    let image = qr_code_image("https://books.example.test/s/token/").unwrap();
    assert!(image.contains("<desc>https://books.example.test/s/token/</desc>"));
    assert!(check_qr_target("page.svg").is_ok());
    assert_eq!(check_qr_target("other.svg").unwrap_err().status, ErrorStatus::NotFound);
}

#[test]
fn etag_combines_revision_and_expiry_seconds() {
    assert_eq!(shelf_etag(1, 1_700_000_000_123_456), "\"1-1700000000\"");
    assert_eq!(shelf_etag(0, -1), "\"0--1\"");
    assert_eq!(timestamp_secs(-1_000_000), -1);
    assert_eq!(timestamp_secs(-1_000_001), -2);
    assert!(is_not_modified(Some("\"1-5\""), "\"1-5\""));
    assert!(!is_not_modified(Some("\"0-5\""), "\"1-5\""));
    assert!(!is_not_modified(None, "\"1-5\""));
}

#[test]
fn downloads_are_named_safely() {
    assert_eq!(content_disposition("a\"b.kepub.epub"), "attachment; filename=\"a_b.kepub.epub\"");
}

#[test]
fn uploads_are_counted_against_the_limit() {
    let mut upload = UploadReceiver::new(10);
    assert!(upload.accept_chunk(6).is_ok());
    assert!(upload.accept_chunk(4).is_ok());
    assert_eq!(upload.received(), 10);
    let error = upload.accept_chunk(1).unwrap_err();
    assert_eq!(error.status, ErrorStatus::PayloadTooLarge);
    assert_eq!(upload.finish().unwrap(), 10);
    let empty = UploadReceiver::new(10).finish().unwrap_err();
    assert_eq!(empty.message, "Invalid file submitted: the EPUB is empty.");
}

#[test]
fn upload_names_must_be_epub() {
    assert_eq!(upload_file_name(Some("Dune.EPUB")).unwrap(), "Dune.EPUB");
    assert_eq!(upload_file_name(None).unwrap(), "book.epub");
    assert_eq!(upload_file_name(Some("Dune.pdf")).unwrap_err().message, "Only EPUB files are supported.");
    assert!(is_upload_field(Some("file")));
    assert!(!is_upload_field(Some("other")));
    assert!(!is_upload_field(None));
    assert_eq!(ready_message("Dune.kepub.epub"), "Ready for Kobo: Dune.kepub.epub");
}

#[test]
fn refused_requests_are_counted() {
    let mut limiter = RateLimiter::new();
    let mut metrics = Metrics::default();
    assert!(enforce_rate(&mut limiter, &mut metrics, "delete", "token", 1, 60, 0).is_ok());
    let error = enforce_rate(&mut limiter, &mut metrics, "delete", "token", 1, 60, 1).unwrap_err();
    assert_eq!(error.status, ErrorStatus::TooManyRequests);
    assert_eq!(error.message, "Too many requests. Try again later.");
    assert_eq!(metrics.requests_rejected, 1);
}

#[test]
fn access_code_gate() {
    assert_eq!(check_access_code(None, "x").unwrap_err().message, "Not found.");
    assert_eq!(check_access_code(Some("code"), "x").unwrap_err().message, "Invalid access code.");
    assert!(check_access_code(Some("code"), "code").is_ok());
}

#[test]
fn responses_have_restrictive_security_headers() {
    let headers = security_headers();
    let csp = &headers.iter().find(|(n, _)| n == "content-security-policy").unwrap().1;
    assert!(csp.contains("default-src 'self'"));
    assert!(!csp.contains("unsafe-inline"));
    let robots = &headers.iter().find(|(n, _)| n == "x-robots-tag").unwrap().1;
    assert_eq!(robots, "noindex, nofollow, noarchive");
    let nosniff = &headers.iter().find(|(n, _)| n == "x-content-type-options").unwrap().1;
    assert_eq!(nosniff, "nosniff");
    let private = private_headers();
    assert_eq!(private[0], ("cache-control".to_string(), "no-store".to_string()));
    assert_eq!(private[1], ("referrer-policy".to_string(), "no-referrer".to_string()));
}

#[test]
fn unchanged_poll_returns_304_and_mutation_changes_etag() {
    let expires_at: i64 = 1_700_043_200_000_000;
    let initial_etag = shelf_etag(0, expires_at);
    assert!(is_not_modified(Some(initial_etag.as_str()), &initial_etag));

    let changed = shelf_etag(1, expires_at);
    assert!(!is_not_modified(Some(initial_etag.as_str()), &changed));
    assert!(changed.starts_with("\"1-"));
}

#[test]
fn public_shelf_url_drops_query_and_fragment() {
    let config = Config::for_test("/tmp/epub-drop-config-test", Some("https://books.example.test/base?ref=1#top"), None);
    assert_eq!(
        public_shelf_url(&config, None, "token").unwrap(),
        "https://books.example.test/s/token/"
    );
}

#[test]
fn shelf_qr_code_serves_only_the_page_image() {
    let config = Config::for_test("/tmp/epub-drop-config-test", Some("https://books.example.test/"), None);
    let missing = shelf_qr_code(&config, None, "token", "other.svg").unwrap_err();
    assert_eq!(missing.status, ErrorStatus::NotFound);
    assert_eq!(missing.message, "QR target not found");
    let image = shelf_qr_code(&config, Some("attacker.example"), "token", "page.svg").unwrap();
    assert!(image.contains("<desc>https://books.example.test/s/token/</desc>"));

    let unusable = Config::for_test("/tmp/epub-drop-config-test", Some("mailto:someone@example.test"), None);
    assert_eq!(shelf_qr_code(&unusable, None, "token", "page.svg").unwrap_err().status, ErrorStatus::InternalServerError);
}
