use duster::cli::ScanOptions;
use duster::config::{parse_size_mb, parse_size_normalized, Config};

#[test]
fn test_parse_size_mb() {
    assert_eq!(parse_size_mb("100MB"), Some(100));
    assert_eq!(parse_size_mb("1GB"), Some(1024));
    assert_eq!(parse_size_mb("100"), Some(100));
    assert_eq!(parse_size_mb("1G"), Some(1024));
    assert_eq!(parse_size_mb("500M"), Some(500));
}

#[test]
fn test_default_config() {
    let config = Config::default();
    assert_eq!(config.min_age_days, 30);
    assert_eq!(config.min_large_size_mb, 100);
    assert_eq!(config.project_recent_days, 14);
}

#[test]
fn sizes_are_read_in_megabytes() {
    assert_eq!(parse_size_mb("  2gb "), Some(2048));
    assert_eq!(parse_size_mb("100 MB"), Some(100));
    assert_eq!(parse_size_mb("2048KB"), Some(2));
    assert_eq!(parse_size_mb("1023k"), Some(0));
    assert_eq!(parse_size_mb("7m"), Some(7));
    assert_eq!(parse_size_mb("+5"), Some(5));
    assert_eq!(parse_size_mb(""), None);
    assert_eq!(parse_size_mb("MB"), None);
    assert_eq!(parse_size_mb("1.5GB"), None);
    assert_eq!(parse_size_mb("12TB"), None);
    assert_eq!(parse_size_mb("-1"), None);
    assert_eq!(parse_size_mb("18014398509481983G"), Some(18014398509481983 * 1024));
    assert_eq!(parse_size_mb("18014398509481984G"), None);
    assert_eq!(parse_size_normalized("3GB"), Some(3072));
    assert_eq!(parse_size_normalized("3gb"), None);
    assert_eq!(parse_size_normalized("B"), None);
}

#[test]
fn patterns_match_by_occurrence_or_by_their_ends() {
    let mut config = Config::default();
    assert!(!config.is_excluded("/home/u/project/node_modules"));
    config.excluded_paths = vec!["important".to_string(), "/home/*/keep".to_string(), "a*b*c".to_string()];
    assert!(config.is_excluded("/home/u/important-project/node_modules"));
    assert!(config.is_excluded("/home/u/x/keep"));
    assert!(config.is_excluded("/home/keep"));
    assert!(!config.is_excluded("/home/u/x/keeps"));
    assert!(!config.is_excluded("/var/home/u/keep"));
    assert!(!config.is_excluded("/xaybzc"));
    assert!(config.is_excluded("/xa*b*c"));
    config.excluded_paths = vec!["".to_string()];
    assert!(config.is_excluded("/anything"));
    config.excluded_paths = vec!["*".to_string()];
    assert!(config.is_excluded("/anything"));
}

#[test]
fn a_request_overrides_the_settings() {
    let mut config = Config::default();
    config.excluded_paths = vec!["a".to_string()];
    let options = ScanOptions {
        all: false,
        cache: false,
        trash: false,
        temp: false,
        downloads: false,
        build: false,
        large: false,
        duplicates: false,
        old: false,
        min_age: Some(7),
        min_size: Some("2GB".to_string()),
        project_age: Some(3),
        path: Some("/data".to_string()),
        exclude: vec!["b".to_string(), "a".to_string(), "b".to_string(), "c".to_string()],
        json: false,
    };
    config.apply_cli_options(&options);
    assert_eq!(config.min_age_days, 7);
    assert_eq!(config.min_large_size_mb, 2048);
    assert_eq!(config.project_recent_days, 3);
    assert_eq!(config.download_age_days, 30);
    assert_eq!(config.base_path, Some("/data".to_string()));
    assert_eq!(config.excluded_paths, vec!["a".to_string(), "b".to_string(), "c".to_string()]);
    let mut unreadable = options.clone();
    unreadable.min_size = Some("lots".to_string());
    unreadable.path = None;
    unreadable.min_age = None;
    config.apply_cli_options(&unreadable);
    assert_eq!(config.min_large_size_mb, 2048);
    assert_eq!(config.min_age_days, 7);
    assert_eq!(config.base_path, Some("/data".to_string()));
}

#[test]
fn the_scan_starts_at_the_base_path_or_at_home() {
    let mut config = Config::default();
    assert_eq!(config.get_base_path(Some("/home/u")), "/home/u");
    assert_eq!(config.get_base_path(None), ".");
    config.base_path = Some("/data".to_string());
    assert_eq!(config.get_base_path(Some("/home/u")), "/data");
    assert_eq!(config.min_large_size_bytes(), 100 * 1024 * 1024);
    config.min_large_size_mb = u64::MAX;
    assert_eq!(config.min_large_size_bytes(), u64::MAX);
    config.min_large_size_mb = 17592186044415;
    assert_eq!(config.min_large_size_bytes(), 17592186044415 * 1024 * 1024);
    config.min_large_size_mb = 17592186044416;
    assert_eq!(config.min_large_size_bytes(), u64::MAX);
    assert_eq!(duster::config::default_min_age_days(), 30);
    assert_eq!(duster::config::default_min_large_size_mb(), 100);
    assert_eq!(duster::config::default_project_recent_days(), 14);
    assert_eq!(duster::config::default_download_age_days(), 30);
}
