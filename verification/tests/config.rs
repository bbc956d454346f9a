use kobo_library::config::{absolute_path, join_path, local_kepubify_path, Config, ConfigError, EnvVars};

fn vars() -> EnvVars {
    EnvVars {
        cwd: "/srv/kobo".to_string(),
        port: None,
        data_dir: None,
        max_upload_mb: None,
        conversion_concurrency: None,
        kepubify_bin: None,
        local_kepubify_exists: false,
        public_base_url: None,
        shelf_access_code: None,
    }
}

#[test]
fn hosted_configuration_requires_https_and_access_code() {
    let root = "/tmp/kobo-config-validation";
    assert!(Config::for_test(root, Some("http://example.test"), Some("code")).validate().is_err());
    assert!(Config::for_test(root, Some("https://example.test"), None).validate().is_err());
    assert!(Config::for_test(root, Some("https://example.test"), Some("code")).validate().is_ok());
}

#[test]
fn validation_reports_each_problem() {
    let root = "/tmp/kobo-config-validation";
    assert!(matches!(
        Config::for_test(root, Some("not a url"), Some("code")).validate(),
        Err(ConfigError::InvalidUrl(_))
    ));
    let not_https = Config::for_test(root, Some("http://example.test"), Some("code")).validate().unwrap_err();
    assert_eq!(not_https.message(), "PUBLIC_BASE_URL must be an absolute HTTPS URL");
    let missing = Config::for_test(root, Some("https://example.test"), None).validate().unwrap_err();
    assert_eq!(missing.message(), "SHELF_ACCESS_CODE is required when PUBLIC_BASE_URL is configured");
    assert!(Config::for_test(root, None, None).validate().is_ok());
}

#[test]
fn defaults_apply_when_the_environment_is_empty() {
    let config = Config::from_env(&vars());
    assert_eq!(config.port, 3001);
    assert_eq!(config.data_dir, "data");
    assert_eq!(config.database_path, "data/library.sqlite3");
    assert_eq!(config.shelves_dir, "data/shelves");
    assert_eq!(config.kepubify_bin, "kepubify");
    assert_eq!(config.max_upload_bytes, 100 * 1024 * 1024);
    assert_eq!(config.conversion_slots, 2);
    assert_eq!(config.upload_slots, 8);
    assert_eq!(config.download_slots, 32);
    assert_eq!(config.max_books_per_shelf, 20);
    assert_eq!(config.max_service_bytes, 10 * 1024 * 1024 * 1024);
    assert!(config.public_base_url.is_none());
    assert!(config.shelf_access_code.is_none());
}

#[test]
fn environment_values_are_parsed() {
    let mut v = vars();
    v.port = Some("8080".to_string());
    v.data_dir = Some("/var/lib/kobo/".to_string());
    v.max_upload_mb = Some("800".to_string());
    v.conversion_concurrency = Some("+4".to_string());
    v.kepubify_bin = Some("tools/kepubify".to_string());
    v.public_base_url = Some("https://books.example.test///".to_string());
    v.shelf_access_code = Some("secret".to_string());
    let config = Config::from_env(&v);
    assert_eq!(config.port, 8080);
    assert_eq!(config.database_path, "/var/lib/kobo/library.sqlite3");
    assert_eq!(config.max_upload_bytes, 800 * 1024 * 1024);
    assert_eq!(config.conversion_slots, 4);
    assert_eq!(config.kepubify_bin, "/srv/kobo/tools/kepubify");
    assert_eq!(config.public_base_url.as_deref(), Some("https://books.example.test"));
    assert_eq!(config.shelf_access_code.as_deref(), Some("secret"));
}

#[test]
fn invalid_values_fall_back_to_defaults() {
    let mut v = vars();
    v.port = Some("70000".to_string());
    v.max_upload_mb = Some("-1".to_string());
    v.conversion_concurrency = Some("0".to_string());
    v.public_base_url = Some("///".to_string());
    v.shelf_access_code = Some(String::new());
    v.local_kepubify_exists = true;
    let config = Config::from_env(&v);
    assert_eq!(config.port, 3001);
    assert_eq!(config.max_upload_bytes, 100 * 1024 * 1024);
    assert_eq!(config.conversion_slots, 2);
    assert!(config.public_base_url.is_none());
    assert!(config.shelf_access_code.is_none());
    assert_eq!(config.kepubify_bin, "/srv/kobo/bin/kepubify");
}

#[test]
fn paths_join_like_unix_paths() {
    assert_eq!(join_path("data", "shelves"), "data/shelves");
    assert_eq!(join_path("data/", "shelves"), "data/shelves");
    assert_eq!(join_path("", "shelves"), "shelves");
    assert_eq!(join_path("data", "/abs"), "/abs");
    assert_eq!(absolute_path("/cwd", "bin/k"), "/cwd/bin/k");
    assert_eq!(absolute_path("/cwd", "/usr/bin/k"), "/usr/bin/k");
    assert_eq!(local_kepubify_path("/cwd"), "/cwd/bin/kepubify");
}
