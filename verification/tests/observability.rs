use kobo_library::observability::{hex_prefix, Metrics, RateLimiter};

const SECOND: u64 = 1_000_000_000;

#[test]
fn limiter_is_bounded_and_separates_secret_keys() {
    let mut limiter = RateLimiter::new();
    assert!(limiter.allow("upload", "one", 1, 60 * SECOND, 0));
    assert!(!limiter.allow("upload", "one", 1, 60 * SECOND, 0));
    assert!(limiter.allow("upload", "two", 1, 60 * SECOND, 0));
}

#[test]
fn limiter_window_restarts_after_its_duration() {
    let mut limiter = RateLimiter::new();
    assert!(limiter.allow("poll", "t", 2, 60 * SECOND, 0));
    assert!(limiter.allow("poll", "t", 2, 60 * SECOND, 10 * SECOND));
    assert!(!limiter.allow("poll", "t", 2, 60 * SECOND, 59 * SECOND));
    assert!(limiter.allow("poll", "t", 2, 60 * SECOND, 60 * SECOND));
    assert!(limiter.allow("other", "t", 2, 60 * SECOND, 60 * SECOND));
}

#[test]
fn limiter_with_zero_limit_refuses_everything() {
    let mut limiter = RateLimiter::new();
    assert!(!limiter.allow("create", "service", 0, 60 * SECOND, 5));
}

#[test]
fn hex_prefix_is_lower_case_and_two_digits_per_byte() {
    let bytes: Vec<u8> = (0u8..20).map(|b| b * 13).collect();
    assert_eq!(hex_prefix(&bytes), "000d1a2734414e5b6875828f9ca9b6c3");
}

#[test]
fn metrics_render_every_counter() {
    let mut metrics = Metrics::default();
    Metrics::increment(&mut metrics.uploads_completed);
    Metrics::add(&mut metrics.conversion_millis, 250);
    Metrics::add(&mut metrics.shelves_cleaned, 3);
    let text = metrics.render(2, 42, -1);
    assert_eq!(
        text,
        "kobo_active_shelves 2\nkobo_stored_bytes 42\nkobo_cleanup_lag_seconds -1\nkobo_uploads_completed 1\nkobo_uploads_failed 0\nkobo_downloads_started 0\nkobo_requests_rejected 0\nkobo_cleanup_failures 0\nkobo_shelves_cleaned 3\nkobo_conversion_milliseconds_total 250\n"
    );
}

#[test]
fn counters_wrap_around() {
    let mut counter = u64::MAX;
    Metrics::increment(&mut counter);
    assert_eq!(counter, 0);
    Metrics::add(&mut counter, 5);
    assert_eq!(counter, 5);
}

#[test]
fn metrics_do_not_expose_capabilities_or_book_metadata() {
    let token = kobo_library::shelves::new_capability().token;
    let body = Metrics::default().render(1, 42, 0);
    assert!(body.contains("kobo_stored_bytes 42"));
    assert!(!body.contains(&token));
    assert!(!body.contains("Secret"));
}
