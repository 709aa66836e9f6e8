use duster::bridge::{
    apply_ui_options, category_to_key, convert_cleanup, convert_scan_result, format_size,
    get_categories, get_config, scan_request, UiScanOptions,
};
use duster::cleaner::CleanupResult;
use duster::config::Config;
use duster::scanner::{Category, CleanableFile, ScanResult};
use duster::space::{find_disk_for_path, run, DiskInfo};
use duster::time::Timestamp;

fn cleanable(path: &str, size: u64, category: Category, secs: i64) -> CleanableFile {
    CleanableFile {
        path: path.to_string(),
        size,
        category,
        last_accessed: Timestamp { secs, nanos: 0 },
        reason: "why".to_string(),
        is_directory: false,
    }
}

#[test]
fn sizes_have_two_decimal_places() {
    assert_eq!(format_size(0), "0 B");
    assert_eq!(format_size(1023), "1023 B");
    assert_eq!(format_size(1024), "1.00 KB");
    assert_eq!(format_size(1536), "1.50 KB");
    assert_eq!(format_size(5 * 1024 * 1024), "5.00 MB");
    assert_eq!(format_size(1 << 30), "1.00 GB");
    assert_eq!(format_size(3 << 40), "3072.00 GB");
    for bytes in [1025u64, 1029, 1030, 123456789, 987654321012, u64::MAX] {
        let expected = if bytes >= 1 << 30 {
            format!("{:.2} GB", bytes as f64 / (1u64 << 30) as f64)
        } else if bytes >= 1 << 20 {
            format!("{:.2} MB", bytes as f64 / (1u64 << 20) as f64)
        } else {
            format!("{:.2} KB", bytes as f64 / 1024.0)
        };
        assert_eq!(format_size(bytes), expected);
    }
}

#[test]
fn categories_have_keys() {
    assert_eq!(category_to_key(&Category::Cache), "cache");
    assert_eq!(category_to_key(&Category::BuildArtifact), "build");
    assert_eq!(category_to_key(&Category::Duplicate), "duplicates");
    let list = get_categories();
    assert_eq!(list.len(), 8);
    assert_eq!(list[0].key, "cache");
    assert_eq!(list[0].name, "System Cache");
    assert_eq!(list[0].description, "Cached data from applications and system");
    assert_eq!(list[0].count, 0);
    assert_eq!(list[0].size_formatted, "0 B");
    assert_eq!(list[7].key, "old");
    assert_eq!(list[4].name, "Build Artifacts");
}

#[test]
fn a_result_is_shown_with_its_totals() {
    let result = ScanResult {
        files: vec![
            cleanable("/a", 2048, Category::Temp, 1431648000),
            cleanable("/b", 1024, Category::Cache, 0),
            cleanable("/c", 1024, Category::Temp, i64::MAX),
        ],
        errors: vec!["Temp Scanner: boom".to_string()],
    };
    let shown = convert_scan_result(&result);
    assert_eq!(shown.total_size, 4096);
    assert_eq!(shown.total_count, 3);
    assert_eq!(shown.errors, vec!["Temp Scanner: boom".to_string()]);
    assert_eq!(shown.files.len(), 3);
    assert_eq!(shown.files[0].path, "/a");
    assert_eq!(shown.files[0].size_formatted, "2.00 KB");
    assert_eq!(shown.files[0].category, "Temp Files");
    assert_eq!(shown.files[0].category_key, "temp");
    assert_eq!(shown.files[0].last_accessed, "2015-05-15 00:00");
    assert_eq!(shown.files[1].last_accessed, "1970-01-01 00:00");
    assert_eq!(shown.files[2].last_accessed, "");
    assert_eq!(shown.files[0].reason, "why");
    assert_eq!(shown.by_category.len(), 2);
    assert_eq!(shown.by_category[0].key, "cache");
    assert_eq!(shown.by_category[0].count, 1);
    assert_eq!(shown.by_category[1].key, "temp");
    assert_eq!(shown.by_category[1].count, 2);
    assert_eq!(shown.by_category[1].size, 3072);
    assert_eq!(shown.by_category[1].size_formatted, "3.00 KB");
}

#[test]
fn a_request_of_the_front_end_becomes_a_scan_request() {
    let ui = UiScanOptions {
        categories: vec!["cache".to_string(), "old".to_string()],
        min_age: Some(7),
        min_size_mb: Some(250),
        project_age: None,
        path: Some("/data".to_string()),
    };
    let o = scan_request(&ui);
    assert!(!o.all && o.cache && o.old);
    assert!(!o.trash && !o.temp && !o.downloads && !o.build && !o.large && !o.duplicates);
    assert_eq!(o.min_age, Some(7));
    assert_eq!(o.min_size, Some("250MB".to_string()));
    assert_eq!(o.path, Some("/data".to_string()));
    assert!(o.exclude.is_empty() && !o.json);
    let mut config = Config::default();
    config.excluded_paths = vec!["x".to_string()];
    apply_ui_options(&mut config, &ui);
    assert_eq!(config.min_age_days, 7);
    assert_eq!(config.min_large_size_mb, 250);
    assert_eq!(config.project_recent_days, 14);
    assert_eq!(config.base_path, Some("/data".to_string()));
    let shown = get_config(&config);
    assert_eq!(shown.min_large_size_mb, 250);
    assert_eq!(shown.excluded_paths, vec!["x".to_string()]);
    let none = UiScanOptions {
        categories: vec![],
        min_age: None,
        min_size_mb: None,
        project_age: None,
        path: None,
    };
    assert!(scan_request(&none).all);
}

#[test]
fn an_account_is_shown_with_its_size() {
    let mut result = CleanupResult::new();
    result.deleted_count = 3;
    result.freed_bytes = 3 * 1024 * 1024;
    result.errors.push("x: y".to_string());
    let shown = convert_cleanup(&result);
    assert_eq!(shown.deleted_count, 3);
    assert_eq!(shown.freed_formatted, "3.00 MB");
    assert_eq!(shown.errors, vec!["x: y".to_string()]);
}

#[test]
fn the_innermost_disk_holds_the_path() {
    let disks = vec![
        DiskInfo { mount_point: "/".to_string(), total_space: 1000, available_space: 10 },
        DiskInfo { mount_point: "/home".to_string(), total_space: 2 << 30, available_space: 1 << 30 },
        DiskInfo { mount_point: "/boot".to_string(), total_space: 3000, available_space: 30 },
        DiskInfo { mount_point: "/home".to_string(), total_space: 4000, available_space: 40 },
    ];
    assert_eq!(find_disk_for_path("/home/u/x", &disks), Some(1));
    assert_eq!(find_disk_for_path("/homestead", &disks), Some(0));
    assert_eq!(find_disk_for_path("/boot", &disks), Some(2));
    assert_eq!(find_disk_for_path("relative", &disks), None);
    let report = run("/home/u", &disks).unwrap();
    assert_eq!(report.mount_point, "/home");
    assert_eq!(report.total_bytes, 2 << 30);
    assert_eq!(report.total_formatted, "2.0 GB");
    assert_eq!(report.free_formatted, "1.0 GB");
    assert!(run("x", &disks).is_none());
    assert!(run("/home", &Vec::new()).is_none());
}
