use duster::cli::ScanOptions;
use duster::scan_cache::{
    load_if_recent, load_if_recent_default, options_fingerprint, save, CACHE_MAX_AGE_SECS,
};
use duster::scanner::{Category, CleanableFile, ScanResult};
use duster::time::Timestamp;

fn options() -> ScanOptions {
    ScanOptions {
        all: false,
        cache: true,
        trash: false,
        temp: false,
        downloads: false,
        build: false,
        large: true,
        duplicates: false,
        old: false,
        min_age: Some(30),
        min_size: Some("100MB".to_string()),
        project_age: None,
        path: Some("/home/u/code".to_string()),
        exclude: vec!["target".to_string(), "a \"quoted\"\\name".to_string()],
        json: false,
    }
}

fn result() -> ScanResult {
    ScanResult {
        files: vec![CleanableFile {
            path: "/home/u/code/big.iso".to_string(),
            size: 1 << 30,
            category: Category::LargeFile,
            last_accessed: Timestamp { secs: 1_600_000_000, nanos: 5 },
            reason: "ISO image: big.iso".to_string(),
            is_directory: false,
        }],
        errors: vec!["Temp Scanner: boom".to_string()],
    }
}

fn same(a: &ScanResult, b: &ScanResult) -> bool {
    a.errors == b.errors
        && a.files.len() == b.files.len()
        && a.files.iter().zip(b.files.iter()).all(|(x, y)| {
            x.path == y.path
                && x.size == y.size
                && x.category == y.category
                && x.last_accessed == y.last_accessed
                && x.reason == y.reason
                && x.is_directory == y.is_directory
        })
}

#[test]
fn the_fingerprint_spells_out_the_request() {
    let o = options();
    let by_format = format!(
        "path={} all={} cache={} trash={} temp={} downloads={} build={} large={} duplicates={} old={} min_age={:?} min_size={:?} project_age={:?} exclude={:?}",
        "/home/u/code",
        o.all,
        o.cache,
        o.trash,
        o.temp,
        o.downloads,
        o.build,
        o.large,
        o.duplicates,
        o.old,
        o.min_age,
        o.min_size,
        o.project_age,
        vec!["a \"quoted\"\\name".to_string(), "target".to_string()],
    );
    assert_eq!(options_fingerprint(&o), by_format);
    let mut bare = options();
    bare.path = None;
    bare.min_size = None;
    bare.min_age = None;
    bare.exclude = Vec::new();
    assert_eq!(
        options_fingerprint(&bare),
        "path= all=false cache=true trash=false temp=false downloads=false build=false large=true duplicates=false old=false min_age=None min_size=None project_age=None exclude=[]"
    );
}

#[test]
fn the_fingerprint_forgets_the_order_of_exclusions() {
    let a = options();
    let mut b = options();
    b.exclude.reverse();
    b.json = true;
    assert_eq!(options_fingerprint(&a), options_fingerprint(&b));
    let mut c = options();
    c.exclude.push("more".to_string());
    assert_ne!(options_fingerprint(&a), options_fingerprint(&c));
}

#[test]
fn a_saved_result_comes_back_within_the_window() {
    let saved = save(&result(), &options(), Some(1000));
    assert_eq!(saved.timestamp_secs, 1000);
    assert_eq!(saved.options_key, options_fingerprint(&options()));
    let back = load_if_recent(Some(saved), &options(), Some(1000), 300).unwrap();
    assert!(same(&back, &result()));
    let saved = save(&result(), &options(), Some(1000));
    assert!(same(&load_if_recent(Some(saved), &options(), Some(1300), 300).unwrap(), &result()));
    let saved = save(&result(), &options(), Some(1000));
    assert!(same(&load_if_recent(Some(saved), &options(), Some(900), 300).unwrap(), &result()));
}

#[test]
fn a_saved_result_is_gone_after_the_window() {
    let saved = save(&result(), &options(), Some(1000));
    assert!(load_if_recent(Some(saved), &options(), Some(1301), 300).is_none());
    let saved = save(&result(), &options(), Some(1000));
    assert!(load_if_recent(Some(saved), &options(), Some(1001), 0).is_none());
    assert_eq!(CACHE_MAX_AGE_SECS, 300);
    let saved = save(&result(), &options(), Some(1000));
    assert!(load_if_recent_default(Some(saved), &options(), Some(1300)).is_some());
    let saved = save(&result(), &options(), Some(1000));
    assert!(load_if_recent_default(Some(saved), &options(), Some(1301)).is_none());
}

#[test]
fn a_saved_result_answers_no_other_request() {
    let mut other = options();
    other.path = Some("/home/u/other".to_string());
    let saved = save(&result(), &options(), Some(1000));
    assert!(load_if_recent(Some(saved), &other, Some(1000), 300).is_none());
    let mut other = options();
    other.large = false;
    let saved = save(&result(), &options(), Some(1000));
    assert!(load_if_recent(Some(saved), &other, Some(1000), 300).is_none());
    let mut other = options();
    other.min_size = Some("100mb".to_string());
    let saved = save(&result(), &options(), Some(1000));
    assert!(load_if_recent(Some(saved), &other, Some(1000), 300).is_none());
}

#[test]
fn nothing_kept_or_no_clock_gives_nothing() {
    assert!(load_if_recent(None, &options(), Some(1000), 300).is_none());
    let saved = save(&result(), &options(), Some(1000));
    assert!(load_if_recent(Some(saved), &options(), None, 300).is_none());
    let saved = save(&result(), &options(), None);
    assert_eq!(saved.timestamp_secs, 0);
    assert!(load_if_recent(Some(saved), &options(), Some(1000), 300).is_none());
}
