use duster::analyzer::{
    absorb, category_stats, group_by_category, remove_repeated_paths, run_scan, select_scanners,
    top_files,
};
use duster::cli::{ScanCategory, ScanOptions};
use duster::config::Config;
use duster::scanner::{
    Category, CleanableFile, Environment, FileProbe, Platform, ScanResult, ScannerKind, Survey,
};
use duster::time::Timestamp;

const MIB: u64 = 1024 * 1024;
const NOW: Timestamp = Timestamp { secs: 1_700_000_000, nanos: 0 };

fn options() -> ScanOptions {
    ScanOptions {
        all: false,
        cache: false,
        trash: false,
        temp: false,
        downloads: false,
        build: false,
        large: false,
        duplicates: false,
        old: false,
        min_age: None,
        min_size: None,
        project_age: None,
        path: None,
        exclude: Vec::new(),
        json: false,
    }
}

fn env() -> Environment {
    Environment {
        now: NOW,
        home: Some("/home/u".to_string()),
        platform: Platform::Linux,
        temp_dir: None,
        downloads_dir: None,
    }
}

fn dir(path: &str, size: u64) -> FileProbe {
    let mut p = FileProbe::at(path.to_string());
    p.is_file = false;
    p.is_dir = true;
    p.size = size;
    p.accessed = Some(Timestamp { secs: 1_600_000_000, nanos: 0 });
    p.modified = Some(Timestamp { secs: 1_600_000_000, nanos: 0 });
    p
}

fn cleanable(path: &str, size: u64, category: Category) -> CleanableFile {
    CleanableFile {
        path: path.to_string(),
        size,
        category,
        last_accessed: NOW,
        reason: String::new(),
        is_directory: false,
    }
}

fn paths(files: &[CleanableFile]) -> Vec<String> {
    files.iter().map(|f| f.path.clone()).collect()
}

#[test]
fn a_request_without_categories_asks_for_all() {
    let all = vec![
        ScannerKind::Cache,
        ScannerKind::KnownCache,
        ScannerKind::Trash,
        ScannerKind::Temp,
        ScannerKind::Downloads,
        ScannerKind::BuildArtifacts,
        ScannerKind::GlobalCache,
        ScannerKind::LargeFiles,
        ScannerKind::Duplicates,
        ScannerKind::OldFiles,
    ];
    assert_eq!(select_scanners(&options()), all);
    let mut o = options();
    o.all = true;
    o.trash = true;
    assert_eq!(select_scanners(&o), all);
    assert!(options().no_categories_selected());
    assert!(options().should_scan(ScanCategory::Old));
}

#[test]
fn a_request_names_its_scanners() {
    let mut o = options();
    o.build = true;
    o.trash = true;
    assert_eq!(select_scanners(&o), vec![
        ScannerKind::Trash,
        ScannerKind::BuildArtifacts,
        ScannerKind::GlobalCache
    ]);
    assert!(!o.no_categories_selected());
    assert!(o.should_scan(ScanCategory::Build));
    assert!(!o.should_scan(ScanCategory::Cache));
    let mut c = options();
    c.cache = true;
    assert_eq!(select_scanners(&c), vec![ScannerKind::Cache, ScannerKind::KnownCache]);
}

#[test]
fn a_directory_found_by_two_scanners_is_reported_once() {
    let config = Config::default();
    let mut survey = Survey::empty(env());
    survey.cache = Ok(vec![dir("/home/u/.cache/pip", 20 * MIB), dir("/home/u/.cache/other", 30 * MIB)]);
    survey.known_caches = Ok(vec![dir("/home/u/.cache/pip/", 20 * MIB), dir("/home/u/.npm/_cacache", 40 * MIB)]);
    survey.global_caches = Ok(vec![dir("/home/u/.npm/_cacache", 40 * MIB), dir("/home/u/.m2/repository", 50 * MIB)]);
    survey.trash = Ok(vec![dir("/home/u/.local/share/Trash/files/x", 7)]);

    let mut cache_only = options();
    cache_only.cache = true;
    let first = run_scan(&cache_only, &config, &survey);
    assert_eq!(paths(&first.files), vec![
        "/home/u/.cache/other",
        "/home/u/.cache/pip",
        "/home/u/.npm/_cacache"
    ]);
    assert_eq!(first.files[1].reason, "Cache directory: pip");

    let mut build_only = options();
    build_only.build = true;
    let second = run_scan(&build_only, &config, &survey);
    assert_eq!(paths(&second.files), vec!["/home/u/.m2/repository", "/home/u/.npm/_cacache"]);

    let mut both = options();
    both.cache = true;
    both.build = true;
    let union = run_scan(&both, &config, &survey);
    assert_eq!(paths(&union.files), vec![
        "/home/u/.cache/other",
        "/home/u/.cache/pip",
        "/home/u/.npm/_cacache",
        "/home/u/.m2/repository"
    ]);
    assert_eq!(union.files[2].category, Category::Cache);
    assert_eq!(union.total_count(), 4);
    assert_eq!(union.total_size(), 140 * MIB);
    assert!(union.errors.is_empty());

    let everything = run_scan(&options(), &config, &survey);
    assert_eq!(everything.total_count(), 5);
    let mut seen = std::collections::HashSet::new();
    for f in &everything.files {
        assert!(seen.insert(std::path::PathBuf::from(&f.path)));
    }
}

#[test]
fn a_failing_scanner_holds_up_no_other() {
    let config = Config::default();
    let mut survey = Survey::empty(env());
    survey.temp = Err("permission denied".to_string());
    survey.large_files = Err("walk interrupted".to_string());
    survey.trash = Ok(vec![dir("/home/u/.local/share/Trash/files/x", 7)]);
    let result = run_scan(&options(), &config, &survey);
    assert_eq!(paths(&result.files), vec!["/home/u/.local/share/Trash/files/x"]);
    assert_eq!(result.errors, vec![
        "Temp Scanner: permission denied".to_string(),
        "Large Files Scanner: walk interrupted".to_string()
    ]);
    let mut only_trash = options();
    only_trash.trash = true;
    assert!(run_scan(&only_trash, &config, &survey).errors.is_empty());
}

#[test]
fn the_first_of_repeated_paths_stays() {
    let files = vec![
        cleanable("/a/b", 1, Category::Cache),
        cleanable("/a/c", 2, Category::Temp),
        cleanable("/a//b/", 3, Category::Trash),
        cleanable("/a/./c", 4, Category::OldFile),
        cleanable("/a/d", 5, Category::OldFile),
        cleanable("/a/b", 6, Category::OldFile),
    ];
    let kept = remove_repeated_paths(files);
    assert_eq!(paths(&kept), vec!["/a/b", "/a/c", "/a/d"]);
    assert_eq!(kept[0].size, 1);
    assert_eq!(kept[1].category, Category::Temp);
    assert!(remove_repeated_paths(Vec::new()).is_empty());
}

#[test]
fn outcomes_are_taken_in_one_after_the_other() {
    let mut result = ScanResult::new();
    absorb(&mut result, ScannerKind::Trash, Ok(vec![cleanable("/t/a", 1, Category::Trash)]));
    absorb(&mut result, ScannerKind::Temp, Err("boom".to_string()));
    absorb(&mut result, ScannerKind::OldFiles, Ok(vec![cleanable("/o/b", 2, Category::OldFile)]));
    assert_eq!(paths(&result.files), vec!["/t/a", "/o/b"]);
    assert_eq!(result.errors, vec!["Temp Scanner: boom".to_string()]);
}

#[test]
fn totals_are_sums_over_the_files() {
    let mut result = ScanResult::new();
    assert_eq!(result.total_size(), 0);
    assert_eq!(result.total_count(), 0);
    result.add_files(vec![
        cleanable("/a", 10, Category::Cache),
        cleanable("/b", 20, Category::Temp),
    ]);
    result.add_files(vec![cleanable("/c", 5, Category::Cache)]);
    result.add_error("x".to_string());
    assert_eq!(result.total_size(), 35);
    assert_eq!(result.total_count(), 3);
    assert_eq!(result.errors.len(), 1);
    result.add_files(vec![cleanable("/huge", u64::MAX, Category::LargeFile)]);
    assert_eq!(result.total_size(), u64::MAX);
    let empty = ScanResult::default();
    assert!(empty.files.is_empty() && empty.errors.is_empty());
}

#[test]
fn files_are_grouped_by_category() {
    let files = vec![
        cleanable("/a", 10, Category::OldFile),
        cleanable("/b", 20, Category::Cache),
        cleanable("/c", 5, Category::OldFile),
        cleanable("/d", 100, Category::Temp),
        cleanable("/e", 1, Category::Cache),
    ];
    let groups = group_by_category(&files);
    assert_eq!(groups.len(), 3);
    assert_eq!(groups[0].category, Category::Cache);
    assert_eq!(groups[0].files.iter().map(|f| f.path.as_str()).collect::<Vec<_>>(), vec!["/b", "/e"]);
    assert_eq!(groups[1].category, Category::Temp);
    assert_eq!(groups[2].category, Category::OldFile);
    assert_eq!(groups[2].files.iter().map(|f| f.path.as_str()).collect::<Vec<_>>(), vec!["/a", "/c"]);

    let mut result = ScanResult::new();
    result.add_files(files.iter().map(|f| f.duplicate()).collect());
    assert_eq!(result.by_category().len(), 3);

    let stats = category_stats(&files);
    assert_eq!(stats.len(), 3);
    assert_eq!((stats[0].category, stats[0].count, stats[0].size), (Category::Temp, 1, 100));
    assert_eq!((stats[1].category, stats[1].count, stats[1].size), (Category::Cache, 2, 21));
    assert_eq!((stats[2].category, stats[2].count, stats[2].size), (Category::OldFile, 2, 15));

    let top = top_files(&files, Category::OldFile, 1);
    assert_eq!(paths(&top), vec!["/a"]);
    let top = top_files(&files, Category::Cache, 5);
    assert_eq!(paths(&top), vec!["/b", "/e"]);
    assert!(top_files(&files, Category::Trash, 3).is_empty());
}
