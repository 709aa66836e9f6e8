use duster::config::Config;
use duster::scanner::build_artifacts::{
    is_project_recently_used, BuildArtifactsScanner, GlobalCacheScanner,
};
use duster::scanner::cache::{CacheScanner, KnownCacheScanner};
use duster::scanner::downloads::DownloadsScanner;
use duster::scanner::large_files::LargeFilesScanner;
use duster::scanner::old_files::OldFilesScanner;
use duster::scanner::temp::TempScanner;
use duster::scanner::trash::TrashScanner;
use duster::scanner::{
    calculate_dir_size, examine, report, was_accessed_within_days, was_modified_within_days,
    Category, Environment, FileProbe, Platform, ProjectFile, Scanner, ScannerKind, Survey,
};
use duster::time::{age_in_days, Timestamp};

const DAY: i64 = 86_400;
const MIB: u64 = 1024 * 1024;
const NOW: Timestamp = Timestamp { secs: 1_700_000_000, nanos: 0 };

fn days_ago(days: i64) -> Option<Timestamp> {
    Some(Timestamp { secs: NOW.secs - days * DAY, nanos: 0 })
}

fn env() -> Environment {
    Environment {
        now: NOW,
        home: Some("/home/u".to_string()),
        platform: Platform::Linux,
        temp_dir: None,
        downloads_dir: Some("/home/u/Downloads".to_string()),
    }
}

fn homeless() -> Environment {
    let mut e = env();
    e.home = None;
    e
}

fn rooted() -> Config {
    let mut config = Config::default();
    config.base_path = Some("/".to_string());
    config
}

fn file(path: &str, size: u64) -> FileProbe {
    let mut p = FileProbe::at(path.to_string());
    p.size = size;
    p.accessed = days_ago(400);
    p.modified = days_ago(400);
    p
}

fn dir(path: &str, size: u64) -> FileProbe {
    let mut p = file(path, size);
    p.is_file = false;
    p.is_dir = true;
    p
}

fn paths(files: &[duster::scanner::CleanableFile]) -> Vec<String> {
    files.iter().map(|f| f.path.clone()).collect()
}

#[test]
fn cache_entries_are_reported_from_one_mebibyte() {
    let config = Config::default();
    let probes = vec![
        dir("/home/u/.cache/small", MIB - 1),
        dir("/home/u/.cache/exact", MIB),
        file("/home/u/.cache/big.bin", 5 * MIB),
    ];
    let found = report(ScannerKind::Cache, &config, &env(), &probes);
    assert_eq!(paths(&found), vec!["/home/u/.cache/big.bin", "/home/u/.cache/exact"]);
    assert_eq!(found[0].reason, "Cache directory: big.bin");
    assert_eq!(found[0].category, Category::Cache);
    assert!(!found[0].is_directory);
    assert!(found[1].is_directory);
    assert_eq!(found[1].last_accessed, days_ago(400).unwrap());
}

#[test]
fn an_unknown_time_of_access_is_reported_as_now() {
    let config = Config::default();
    let mut p = dir("/home/u/.cache/x", 2 * MIB);
    p.accessed = None;
    let found = report(ScannerKind::Cache, &config, &env(), &vec![p]);
    assert_eq!(found[0].last_accessed, NOW);
}

#[test]
fn known_caches_are_reported_from_ten_mebibytes() {
    let config = Config::default();
    let probes = vec![
        dir("/home/u/.npm/_cacache", 10 * MIB),
        dir("/home/u/.yarn/cache", 10 * MIB - 1),
        dir("/home/u/.cache/pip/", 11 * MIB),
        dir("/home/u/.unknown", 100 * MIB),
    ];
    let found = report(ScannerKind::KnownCache, &config, &env(), &probes);
    assert_eq!(paths(&found), vec!["/home/u/.cache/pip/", "/home/u/.npm/_cacache"]);
    assert_eq!(found[0].reason, "pip cache");
    assert_eq!(found[1].reason, "npm cache");
    assert!(found[0].is_directory);
    let none = report(ScannerKind::KnownCache, &config, &homeless(), &probes);
    assert!(none.is_empty());
}

#[test]
fn the_list_of_known_caches_is_complete() {
    let list = KnownCacheScanner::known_caches();
    assert_eq!(list.len(), 21);
    assert_eq!(list[0], ("Library/Caches/Homebrew", "Homebrew downloads cache"));
    assert_eq!(list[20], ("Library/Caches/Slack", "Slack cache"));
    let global = GlobalCacheScanner::global_caches();
    assert_eq!(global.len(), 10);
    assert_eq!(global[2], (".rustup/tmp", "Rustup temp files"));
}

#[test]
fn global_caches_report_the_time_of_change() {
    let config = Config::default();
    let mut p = dir("/home/u/.cargo/registry/cache", 10 * MIB);
    p.modified = days_ago(3);
    p.accessed = days_ago(1);
    let mut small = dir("/home/u/.m2/repository", 10 * MIB - 1);
    small.modified = days_ago(3);
    let found = report(ScannerKind::GlobalCache, &config, &env(), &vec![p, small]);
    assert_eq!(found.len(), 1);
    assert_eq!(found[0].category, Category::BuildArtifact);
    assert_eq!(found[0].reason, "Cargo registry cache");
    assert_eq!(found[0].last_accessed, days_ago(3).unwrap());
}

#[test]
fn trash_is_reported_whatever_its_size() {
    let config = Config::default();
    let probes = vec![
        file("/home/u/.local/share/Trash/files/a", 0),
        dir("/home/u/.local/share/Trash/files/b", 10),
    ];
    let found = report(ScannerKind::Trash, &config, &env(), &probes);
    assert_eq!(paths(&found), vec![
        "/home/u/.local/share/Trash/files/b",
        "/home/u/.local/share/Trash/files/a"
    ]);
    assert_eq!(found[0].reason, "Trashed item: b");
    assert_eq!(found[0].category, Category::Trash);
}

#[test]
fn the_trash_directory_depends_on_the_platform() {
    let s = TrashScanner::new();
    assert_eq!(s.get_trash_dirs(Some("/home/u"), Platform::Linux), vec![
        "/home/u/.local/share/Trash/files"
    ]);
    assert_eq!(s.get_trash_dirs(Some("/Users/u"), Platform::MacOs), vec!["/Users/u/.Trash"]);
    assert!(s.get_trash_dirs(Some("/home/u"), Platform::Other).is_empty());
    assert!(s.get_trash_dirs(None, Platform::Linux).is_empty());
}

#[test]
fn cache_directories_follow_home_and_settings() {
    let mut config = Config::default();
    config.cache_paths = vec!["/opt/cache".to_string()];
    let s = CacheScanner::new();
    assert_eq!(s.get_cache_dirs(&config, Some("/home/u"), Platform::Linux), vec![
        "/home/u/.cache",
        "/opt/cache"
    ]);
    assert_eq!(s.get_cache_dirs(&config, Some("/Users/u"), Platform::MacOs), vec![
        "/Users/u/Library/Caches",
        "/Users/u/.cache",
        "/opt/cache"
    ]);
    assert_eq!(s.get_cache_dirs(&config, None, Platform::Linux), vec!["/opt/cache"]);
}

#[test]
fn temp_directories_do_not_repeat() {
    let s = TempScanner::new();
    assert_eq!(s.get_temp_dirs(None, None), vec!["/tmp", "/var/tmp"]);
    assert_eq!(s.get_temp_dirs(Some("/tmp/"), None), vec!["/tmp", "/var/tmp"]);
    assert_eq!(s.get_temp_dirs(Some("/run/tmp"), Some("/home/u")), vec![
        "/tmp",
        "/var/tmp",
        "/run/tmp",
        "/home/u/Library/Caches/TemporaryItems"
    ]);
}

#[test]
fn temp_files_are_reported_from_one_kibibyte_after_a_day() {
    let config = Config::default();
    let mut root = dir("/tmp", 4096);
    let mut fresh = file("/tmp/fresh", 4096);
    fresh.modified = Some(Timestamp { secs: NOW.secs - DAY + 1, nanos: 0 });
    let mut day_old = file("/tmp/day_old", 4096);
    day_old.modified = Some(Timestamp { secs: NOW.secs - DAY, nanos: 0 });
    let mut unknown = file("/tmp/unknown", 4096);
    unknown.modified = None;
    let mut readonly = file("/tmp/readonly", 4096);
    readonly.readonly = true;
    let mut unreadable = file("/tmp/unreadable", 4096);
    unreadable.metadata_ok = false;
    let mut deep_dir = dir("/tmp/a/b", 4096);
    let mut deep_file = file("/tmp/a/b/c", 2048);
    let mut too_deep = file("/tmp/a/b/c/d", 2048);
    let probes = vec![
        root,
        fresh,
        day_old,
        unknown,
        readonly,
        unreadable,
        file("/tmp/small", 1023),
        file("/tmp/exact", 1024),
        dir("/tmp/dir", 10),
        deep_dir,
        deep_file,
        too_deep,
    ];
    let found = report(ScannerKind::Temp, &config, &env(), &probes);
    assert_eq!(paths(&found), vec!["/tmp/day_old", "/tmp/a/b/c", "/tmp/exact", "/tmp/dir"]);
    assert_eq!(found[3].reason, "Temp file: dir");
    assert!(found[3].is_directory);
    assert_eq!(found[0].category, Category::Temp);
}

#[test]
fn downloads_are_reported_after_the_age_of_the_settings() {
    let mut config = Config::default();
    config.download_age_days = 30;
    let mut root = dir("/home/u/Downloads", 0);
    let mut recent = file("/home/u/Downloads/recent.zip", 10);
    recent.accessed = Some(Timestamp { secs: NOW.secs - 30 * DAY + 1, nanos: 0 });
    let mut old = file("/home/u/Downloads/old.zip", 10);
    old.accessed = Some(Timestamp { secs: NOW.secs - 30 * DAY, nanos: 0 });
    let mut unknown = file("/home/u/Downloads/unknown.zip", 10);
    unknown.accessed = None;
    let mut unreadable = file("/home/u/Downloads/unreadable", 10);
    unreadable.metadata_ok = false;
    let mut nested = file("/home/u/Downloads/dir/nested", 10);
    let probes = vec![
        root,
        recent,
        old,
        unknown,
        unreadable,
        nested,
        file("/home/u/Downloads/.hidden", 10),
        dir("/home/u/Downloads/folder", 500),
    ];
    let found = report(ScannerKind::Downloads, &config, &env(), &probes);
    assert_eq!(paths(&found), vec!["/home/u/Downloads/folder", "/home/u/Downloads/old.zip"]);
    assert_eq!(found[0].reason, "Download not accessed in 400 days: folder");
    assert_eq!(found[1].reason, "Download not accessed in 30 days: old.zip");
    assert_eq!(found[0].category, Category::Downloads);
    assert!(found[0].is_directory);
}

fn artifact(path: &str, size: u64, marker: bool, project: Vec<ProjectFile>) -> FileProbe {
    let mut p = dir(path, size);
    p.project_marker = marker;
    p.project_files = project;
    p
}

fn project_file(name: &str, modified: Option<Timestamp>) -> ProjectFile {
    ProjectFile { name: name.to_string(), modified }
}

#[test]
fn a_recently_used_project_keeps_its_node_modules() {
    let mut config = Config::default();
    config.project_recent_days = 14;
    let probe = artifact(
        "/home/u/code/app/node_modules",
        50 * MIB,
        true,
        vec![project_file("package.json", days_ago(1))],
    );
    let found = report(ScannerKind::BuildArtifacts, &config, &env(), &vec![probe]);
    assert!(found.is_empty());
}

#[test]
fn an_idle_project_gives_up_its_node_modules() {
    let mut config = Config::default();
    config.project_recent_days = 14;
    let probe = artifact(
        "/home/u/code/app/node_modules",
        50 * MIB,
        true,
        vec![project_file("package.json", days_ago(15)), project_file("notes.txt", days_ago(0))],
    );
    let found = report(ScannerKind::BuildArtifacts, &config, &env(), &vec![probe]);
    assert_eq!(found.len(), 1);
    assert_eq!(found[0].reason, "Node.js dependencies in project 'app'");
    assert_eq!(found[0].category, Category::BuildArtifact);
    assert!(found[0].is_directory);
    assert_eq!(found[0].last_accessed, days_ago(400).unwrap());
}

#[test]
fn build_artifacts_need_their_marker_and_one_mebibyte() {
    let config = rooted();
    let probes = vec![
        artifact("/p/a/target", MIB, true, vec![]),
        artifact("/p/b/target", MIB - 1, true, vec![]),
        artifact("/p/c/target", 5 * MIB, false, vec![]),
        artifact("/p/d/__pycache__", 2 * MIB, false, vec![]),
        artifact("/p/e/src", 9 * MIB, true, vec![]),
        artifact("/p/f/.venv", 3 * MIB, false, vec![project_file("main.py", days_ago(2))]),
        artifact("/p/g/venv", 4 * MIB, false, vec![project_file("main.py", None)]),
        artifact("/vendor", 6 * MIB, true, vec![]),
    ];
    let found = report(ScannerKind::BuildArtifacts, &config, &env(), &probes);
    assert_eq!(paths(&found), vec!["/vendor", "/p/d/__pycache__", "/p/a/target"]);
    assert_eq!(found[0].reason, "PHP Composer dependencies in project 'Unknown'");
    assert_eq!(found[1].reason, "Python bytecode cache in project 'd'");
    assert_eq!(found[2].reason, "Rust build artifacts in project 'a'");
    let mut as_file = artifact("/p/a/target", MIB, true, vec![]);
    as_file.is_dir = false;
    assert!(report(ScannerKind::BuildArtifacts, &config, &env(), &vec![as_file]).is_empty());
}

#[test]
fn a_project_is_recent_by_its_own_files_only() {
    assert!(is_project_recently_used(&vec![project_file("Cargo.toml", days_ago(13))], 14, NOW));
    assert!(!is_project_recently_used(&vec![project_file("Cargo.toml", days_ago(14))], 14, NOW));
    assert!(is_project_recently_used(&vec![project_file(".git/HEAD", days_ago(0))], 14, NOW));
    assert!(is_project_recently_used(&vec![project_file("main.rs", days_ago(0))], 14, NOW));
    assert!(is_project_recently_used(&vec![project_file("app.tsx", None)], 14, NOW));
    assert!(!is_project_recently_used(&vec![project_file("README.md", days_ago(0))], 14, NOW));
    assert!(!is_project_recently_used(&vec![project_file("main.RS", days_ago(0))], 14, NOW));
    assert!(!is_project_recently_used(&vec![], 14, NOW));
}

#[test]
fn the_walk_for_artifacts_stops_inside_node_modules() {
    assert!(BuildArtifactsScanner::should_visit("/home/u/code"));
    assert!(BuildArtifactsScanner::should_visit("/home/u/code/node_modules"));
    assert!(!BuildArtifactsScanner::should_visit("/home/u/code/node_modules/pkg"));
    assert!(BuildArtifactsScanner::should_visit("/home/u/code/node_modules/pkg/node_modules"));
    assert!(!BuildArtifactsScanner::should_visit("/home/u/.config"));
    assert!(BuildArtifactsScanner::should_visit("/home/u/code/.venv"));
    assert!(BuildArtifactsScanner::should_visit("/home/u/code/.next"));
    assert!(!BuildArtifactsScanner::should_visit("/home/u/code/.git"));
    assert!(!BuildArtifactsScanner::should_visit("."));
}

#[test]
fn large_files_are_reported_from_the_threshold_of_the_settings() {
    let mut config = Config::default();
    config.min_large_size_mb = 100;
    let mut db_in_project = file("/home/u/code/app/data.SQLITE", 300 * MIB);
    db_in_project.project_marker = true;
    let mut unreadable = file("/home/u/unreadable.iso", 300 * MIB);
    unreadable.metadata_ok = false;
    let probes = vec![
        file("/home/u/a.iso", 100 * MIB),
        file("/home/u/b.iso", 100 * MIB - 1),
        file("/home/u/movie.MKV", 700 * MIB),
        file("/home/u/.hidden.iso", 900 * MIB),
        file("/home/u/data.db", 200 * MIB),
        db_in_project,
        unreadable,
        dir("/home/u/dir.iso", 900 * MIB),
        file("/home/u/table.csv", 100 * MIB),
        file("/home/u/table2.csv", 100 * MIB + 1),
        file("/home/u/noext", 150 * MIB),
    ];
    let found = report(ScannerKind::LargeFiles, &config, &env(), &probes);
    assert_eq!(paths(&found), vec![
        "/home/u/movie.MKV",
        "/home/u/data.db",
        "/home/u/noext",
        "/home/u/table2.csv",
        "/home/u/a.iso",
        "/home/u/table.csv"
    ]);
    assert_eq!(found[0].reason, "Video file: movie.MKV");
    assert_eq!(found[1].reason, "Large file: data.db");
    assert_eq!(found[2].reason, "Large file: noext");
    assert_eq!(found[3].reason, "Data file: table2.csv");
    assert_eq!(found[4].reason, "ISO image: a.iso");
    assert_eq!(found[5].reason, "Large file: table.csv");
    assert_eq!(found[0].category, Category::LargeFile);
}

#[test]
fn only_the_hundred_largest_files_are_reported() {
    let config = Config::default();
    let probes: Vec<FileProbe> =
        (0..150u64).map(|i| file(&format!("/home/u/f{}", i), (200 + i) * MIB)).collect();
    let found = report(ScannerKind::LargeFiles, &config, &env(), &probes);
    assert_eq!(found.len(), 100);
    assert_eq!(found[0].path, "/home/u/f149");
    assert_eq!(found[99].path, "/home/u/f50");
}

#[test]
fn walks_leave_out_directories_by_name() {
    assert!(LargeFilesScanner::should_skip_dir("/home/u/code/node_modules"));
    assert!(LargeFilesScanner::should_skip_dir("/Volumes"));
    assert!(!LargeFilesScanner::should_skip_dir("/home/u/Documents"));
    assert!(!LargeFilesScanner::should_skip_dir("/"));
    assert!(OldFilesScanner::should_skip_dir("/home/u/Documents/.git"));
    assert!(OldFilesScanner::should_skip_dir("/home/u/Documents/bin"));
    assert!(!OldFilesScanner::should_skip_dir("/home/u/Documents/letters"));
    assert!(duster::scanner::duplicates::DuplicatesScanner::should_skip_dir("/home/u/.cache"));
    assert!(!duster::scanner::duplicates::DuplicatesScanner::should_skip_dir("/home/u/Applications"));
}

#[test]
fn needed_large_files_are_databases_in_projects() {
    assert!(LargeFilesScanner::is_common_needed_large_file("/p/app/dev.sqlite3", true));
    assert!(LargeFilesScanner::is_common_needed_large_file("/p/app/dev.DB", true));
    assert!(!LargeFilesScanner::is_common_needed_large_file("/p/app/dev.db", false));
    assert!(!LargeFilesScanner::is_common_needed_large_file("/p/app/dev.iso", true));
    assert!(!LargeFilesScanner::is_common_needed_large_file("/p/app/db", true));
    assert!(OldFilesScanner::is_system_file("/home/u/Documents/Info.PLIST"));
    assert!(OldFilesScanner::is_system_file("/home/u/Documents/lib.so"));
    assert!(!OldFilesScanner::is_system_file("/home/u/Documents/letter.txt"));
    assert_eq!(OldFilesScanner::user_data_dirs(), vec![
        "Documents",
        "Desktop",
        "Pictures",
        "Movies",
        "Music"
    ]);
}

#[test]
fn old_files_are_reported_from_ten_kibibytes_oldest_first() {
    let mut config = Config::default();
    config.min_age_days = 30;
    let mut a = file("/home/u/Documents/a.txt", 10 * 1024);
    a.accessed = days_ago(100);
    let mut b = file("/home/u/Documents/b.txt", 10 * 1024 - 1);
    b.accessed = days_ago(100);
    let mut c = file("/home/u/Documents/c.txt", 50 * 1024);
    c.accessed = days_ago(200);
    let mut d = file("/home/u/Documents/d.txt", 70 * 1024);
    d.accessed = days_ago(100);
    let mut recent = file("/home/u/Documents/recent.txt", 70 * 1024);
    recent.accessed = days_ago(29);
    let mut unknown = file("/home/u/Documents/unknown.txt", 70 * 1024);
    unknown.accessed = None;
    let mut deep = file("/home/u/Documents/1/2/3/4/5/deep.txt", 70 * 1024);
    let mut at_limit = file("/home/u/Documents/1/2/3/4/ok.txt", 20 * 1024);
    at_limit.accessed = days_ago(31);
    let probes = vec![
        a,
        b,
        c,
        d,
        recent,
        unknown,
        deep,
        at_limit,
        file("/home/u/Documents/.hidden", 70 * 1024),
        file("/home/u/Documents/lib.dylib", 70 * 1024),
        dir("/home/u/Documents/folder", 70 * 1024),
    ];
    let found = report(ScannerKind::OldFiles, &config, &env(), &probes);
    assert_eq!(paths(&found), vec![
        "/home/u/Documents/c.txt",
        "/home/u/Documents/d.txt",
        "/home/u/Documents/a.txt",
        "/home/u/Documents/1/2/3/4/ok.txt"
    ]);
    assert_eq!(found[0].reason, "Not accessed in 200 days: c.txt");
    assert_eq!(found[0].category, Category::OldFile);
    assert!(!found[0].is_directory);
}

#[test]
fn only_the_two_hundred_oldest_files_are_reported() {
    let config = Config::default();
    let probes: Vec<FileProbe> = (0..250i64)
        .map(|i| {
            let mut p = file(&format!("/home/u/Documents/f{}", i), 20 * 1024);
            p.accessed = days_ago(100 + i);
            p
        })
        .collect();
    let found = report(ScannerKind::OldFiles, &config, &env(), &probes);
    assert_eq!(found.len(), 200);
    assert_eq!(found[0].path, "/home/u/Documents/f249");
    assert_eq!(found[199].path, "/home/u/Documents/f50");
}

#[test]
fn excluded_paths_are_never_reported() {
    let mut config = Config::default();
    config.excluded_paths = vec!["keep".to_string(), "/tmp/*.lock".to_string()];
    let probes = vec![
        file("/tmp/keep/a", 4096),
        file("/tmp/b.lock", 4096),
        file("/tmp/c", 4096),
    ];
    let found = report(ScannerKind::Temp, &config, &env(), &probes);
    assert_eq!(paths(&found), vec!["/tmp/c"]);
    let probes = vec![
        file("/home/u/.local/share/Trash/files/keep", 1),
        file("/home/u/.local/share/Trash/files/c", 1),
    ];
    let found = report(ScannerKind::Trash, &config, &env(), &probes);
    assert_eq!(paths(&found), vec!["/home/u/.local/share/Trash/files/c"]);
}

#[test]
fn scanners_know_their_names() {
    assert_eq!(CacheScanner::new().name(), "Cache Scanner");
    assert_eq!(KnownCacheScanner::new().name(), "Known Cache Scanner");
    assert_eq!(TrashScanner::new().name(), "Trash Scanner");
    assert_eq!(TempScanner::new().name(), "Temp Scanner");
    assert_eq!(DownloadsScanner::new().name(), "Downloads Scanner");
    assert_eq!(BuildArtifactsScanner::new().name(), "Build Artifacts Scanner");
    assert_eq!(GlobalCacheScanner::new().name(), "Global Cache Scanner");
    assert_eq!(LargeFilesScanner::new().name(), "Large Files Scanner");
    assert_eq!(OldFilesScanner::new().name(), "Old Files Scanner");
    assert_eq!(duster::scanner::duplicates::DuplicatesScanner::new().name(), "Duplicates Scanner");
}

#[test]
fn a_scanner_reports_what_was_observed_for_it() {
    let config = Config::default();
    let mut survey = Survey::empty(env());
    survey.trash = Ok(vec![file("/home/u/.local/share/Trash/files/a", 5)]);
    survey.temp = Err("walk failed".to_string());
    let found = TrashScanner::new().scan(&config, &survey).unwrap();
    assert_eq!(paths(&found), vec!["/home/u/.local/share/Trash/files/a"]);
    assert_eq!(TempScanner::new().scan(&config, &survey).err(), Some("walk failed".to_string()));
    assert!(CacheScanner::default().scan(&config, &survey).unwrap().is_empty());
}

#[test]
fn categories_have_names_and_descriptions() {
    assert_eq!(Category::Cache.display_name(), "System Cache");
    assert_eq!(Category::OldFile.display_name(), "Old Files");
    assert_eq!(Category::Duplicate.description(), "Duplicate files wasting space");
    assert_eq!(
        Category::BuildArtifact.description(),
        "Build outputs and dependencies (node_modules, target, etc.)"
    );
}

#[test]
fn the_size_of_a_directory_is_the_sum_of_its_files() {
    assert_eq!(calculate_dir_size(&vec![]), 0);
    assert_eq!(calculate_dir_size(&vec![1, 2, 3]), 6);
    assert_eq!(calculate_dir_size(&vec![u64::MAX, 1]), u64::MAX);
}

#[test]
fn recency_counts_from_now() {
    assert!(was_accessed_within_days(days_ago(29), 30, NOW));
    assert!(!was_accessed_within_days(days_ago(30), 30, NOW));
    assert!(was_accessed_within_days(None, 30, NOW));
    assert!(was_modified_within_days(None, 1, NOW));
    assert!(!was_modified_within_days(days_ago(2), 1, NOW));
    assert!(!was_accessed_within_days(days_ago(0), 0, NOW));
    let later = Timestamp { secs: NOW.secs + 10, nanos: 0 };
    assert!(was_accessed_within_days(Some(later), 0, NOW));
    assert!(was_accessed_within_days(
        Some(Timestamp { secs: NOW.secs - DAY, nanos: 1 }),
        1,
        NOW
    ));
}

#[test]
fn ages_are_whole_days_toward_zero() {
    assert_eq!(age_in_days(NOW, days_ago(5).unwrap()), 5);
    assert_eq!(age_in_days(NOW, Timestamp { secs: NOW.secs - 5 * DAY + 1, nanos: 0 }), 4);
    assert_eq!(age_in_days(NOW, Timestamp { secs: NOW.secs + DAY + 5, nanos: 0 }), -1);
    assert_eq!(age_in_days(NOW, Timestamp { secs: NOW.secs + 5, nanos: 0 }), 0);
    assert_eq!(
        age_in_days(Timestamp { secs: i64::MAX, nanos: 999_999_999 }, Timestamp {
            secs: i64::MIN,
            nanos: 0
        }),
        213503982334601
    );
}

#[test]
fn entries_outside_the_directories_of_a_scanner_are_not_reported() {
    let config = Config::default();
    let e = env();
    assert!(examine(ScannerKind::Cache, &config, &e, &dir("/home/u/.cache/x", 9 * MIB)).is_some());
    assert!(examine(ScannerKind::Cache, &config, &e, &dir("/home/u/.cache/x/y", 9 * MIB)).is_none());
    assert!(examine(ScannerKind::Cache, &config, &e, &dir("/home/u/.cache", 9 * MIB)).is_none());
    assert!(examine(ScannerKind::Cache, &config, &e, &dir("/home/u/other/x", 9 * MIB)).is_none());
    assert!(examine(ScannerKind::Cache, &config, &homeless(), &dir("/home/u/.cache/x", 9 * MIB))
        .is_none());
    let mut with_paths = Config::default();
    with_paths.cache_paths = vec!["/opt/cache".to_string()];
    assert!(examine(ScannerKind::Cache, &with_paths, &e, &dir("/opt/cache/x", 9 * MIB)).is_some());
    assert!(examine(ScannerKind::Cache, &config, &e, &dir("/opt/cache/x", 9 * MIB)).is_none());
    let mut mac = env();
    mac.platform = Platform::MacOs;
    assert!(examine(ScannerKind::Cache, &config, &mac, &dir("/home/u/Library/Caches/x", 9 * MIB))
        .is_some());
    assert!(examine(ScannerKind::Cache, &config, &e, &dir("/home/u/Library/Caches/x", 9 * MIB))
        .is_none());

    assert!(examine(ScannerKind::Trash, &config, &e, &file("/home/u/.local/share/Trash/files/a", 1))
        .is_some());
    assert!(examine(ScannerKind::Trash, &config, &e, &file("/home/u/.Trash/a", 1)).is_none());
    assert!(examine(ScannerKind::Trash, &config, &mac, &file("/home/u/.Trash/a", 1)).is_some());
    assert!(examine(ScannerKind::Trash, &config, &e, &file("/home/u/Documents/a", 1)).is_none());

    assert!(examine(ScannerKind::Temp, &config, &e, &file("/var/tmp/a", 4096)).is_some());
    assert!(examine(ScannerKind::Temp, &config, &e, &file("/srv/tmp/a", 4096)).is_none());
    let mut named = env();
    named.temp_dir = Some("/srv/tmp".to_string());
    assert!(examine(ScannerKind::Temp, &config, &named, &file("/srv/tmp/a", 4096)).is_some());
    named.temp_dir = Some("/tmp/deep".to_string());
    assert!(examine(ScannerKind::Temp, &config, &named, &file("/tmp/deep/1/2/3", 4096)).is_some());
    assert!(examine(ScannerKind::Temp, &config, &e, &file("/tmp/deep/1/2/3", 4096)).is_none());
    assert!(examine(ScannerKind::Temp, &config, &named, &dir("/tmp/deep/1", 4096)).is_some());
    assert!(examine(ScannerKind::Temp, &config, &e, &dir("/tmp/deep/1", 4096)).is_none());

    assert!(examine(ScannerKind::Downloads, &config, &e, &file("/home/u/Downloads/a", 1)).is_some());
    assert!(examine(ScannerKind::Downloads, &config, &e, &file("/home/u/Desktop/a", 1)).is_none());
    let mut without = env();
    without.downloads_dir = None;
    assert!(examine(ScannerKind::Downloads, &config, &without, &file("/home/u/Downloads/a", 1))
        .is_none());

    assert!(examine(ScannerKind::OldFiles, &config, &e, &file("/home/u/Music/a.mp3", MIB)).is_some());
    assert!(examine(ScannerKind::OldFiles, &config, &e, &file("/home/u/Videos/a.mp4", MIB)).is_none());
    assert!(examine(ScannerKind::OldFiles, &config, &homeless(), &file("/home/u/Music/a.mp3", MIB))
        .is_none());

    assert!(examine(ScannerKind::LargeFiles, &config, &e, &file("/home/u/a.iso", 500 * MIB))
        .is_some());
    assert!(examine(ScannerKind::LargeFiles, &config, &e, &file("/srv/a.iso", 500 * MIB)).is_none());
    assert!(examine(ScannerKind::LargeFiles, &rooted(), &e, &file("/srv/a.iso", 500 * MIB))
        .is_some());
}

#[test]
fn entries_behind_directories_that_a_walk_leaves_out_are_not_reported() {
    let config = Config::default();
    let e = env();
    let large = |path: &str| {
        examine(ScannerKind::LargeFiles, &config, &e, &file(path, 500 * MIB)).is_some()
    };
    assert!(large("/home/u/work/a.iso"));
    assert!(!large("/home/u/work/node_modules/a.iso"));
    assert!(!large("/home/u/work/target/debug/a.iso"));
    assert!(!large("/home/u/Library/a.iso"));
    assert!(!large("/home/u/.git/objects/a.pack"));
    assert!(large("/home/u/.config/a.iso"));
    assert!(large("/home/u/work/target"));
    let mut in_target = Config::default();
    in_target.base_path = Some("/home/u/work/target".to_string());
    assert!(examine(
        ScannerKind::LargeFiles,
        &in_target,
        &e,
        &file("/home/u/work/target/a.iso", 500 * MIB)
    )
    .is_none());
    let mut below_target = Config::default();
    below_target.base_path = Some("/home/u/work/target/debug".to_string());
    assert!(examine(
        ScannerKind::LargeFiles,
        &below_target,
        &e,
        &file("/home/u/work/target/debug/a.iso", 500 * MIB)
    )
    .is_some());

    let old =
        |path: &str| examine(ScannerKind::OldFiles, &config, &e, &file(path, MIB)).is_some();
    assert!(old("/home/u/Documents/letters/a.txt"));
    assert!(!old("/home/u/Documents/.secret/a.txt"));
    assert!(!old("/home/u/Documents/bin/a.txt"));
    assert!(!old("/home/u/Documents/x/node_modules/a.txt"));
    assert!(old("/home/u/Documents/bin"));

    let artifact = |path: &str| {
        let mut p = dir(path, 50 * MIB);
        p.project_marker = true;
        examine(ScannerKind::BuildArtifacts, &config, &e, &p).is_some()
    };
    assert!(artifact("/home/u/code/app/node_modules"));
    assert!(!artifact("/home/u/code/app/node_modules/pkg/dist"));
    assert!(!artifact("/home/u/code/app/node_modules/pkg/node_modules"));
    assert!(artifact("/home/u/code/app/node_modules/node_modules"));
    assert!(!artifact("/home/u/.hidden/app/target"));
    assert!(artifact("/home/u/code/.venv"));
    assert!(artifact("/home/u/code/.next/dist"));
    assert!(!artifact("/srv/app/target"));
    let mut hidden_root = Config::default();
    hidden_root.base_path = Some("/home/u/.hidden".to_string());
    let mut p = dir("/home/u/.hidden/app/target", 50 * MIB);
    p.project_marker = true;
    assert!(examine(ScannerKind::BuildArtifacts, &hidden_root, &e, &p).is_none());
}
