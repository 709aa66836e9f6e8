use duster::config::Config;
use duster::digest::{hash_chunks, ContentHasher};
use duster::scanner::duplicates::{report_group, DuplicatesScanner};
use duster::scanner::{Category, CleanableFile, Environment, FileProbe, Platform};
use duster::time::Timestamp;

const MIB: u64 = 1024 * 1024;
const NOW: Timestamp = Timestamp { secs: 1_700_000_000, nanos: 0 };

fn at(secs: i64) -> Option<Timestamp> {
    Some(Timestamp { secs, nanos: 0 })
}

fn env() -> Environment {
    Environment {
        now: NOW,
        home: Some("/home/u".to_string()),
        platform: Platform::Linux,
        temp_dir: None,
        downloads_dir: None,
    }
}

fn rooted() -> Config {
    let mut config = Config::default();
    config.base_path = Some("/".to_string());
    config
}

fn probe(path: &str, size: u64, accessed: i64, digest: Option<&str>) -> FileProbe {
    let mut p = FileProbe::at(path.to_string());
    p.size = size;
    p.accessed = at(accessed);
    p.digest = digest.map(|d| d.to_string());
    p
}

fn paths(files: &[CleanableFile]) -> Vec<String> {
    files.iter().map(|f| f.path.clone()).collect()
}

#[test]
fn a_copy_in_another_directory_is_the_one_duplicate() {
    let config = rooted();
    let content = vec![7u8; 5 * MIB as usize];
    let digest = hash_chunks(&vec![content.clone()]).unwrap();
    let copy = hash_chunks(&vec![content]).unwrap();
    let probes = vec![
        probe("/home/u/photos/copy.raw", 5 * MIB, 2000, Some(&copy)),
        probe("/home/u/backup/original.raw", 5 * MIB, 1000, Some(&digest)),
    ];
    assert_eq!(DuplicatesScanner::hash_candidates(&config, &env(), &probes), vec![0, 1]);
    let found = DuplicatesScanner::find_duplicates(&config, &env(), &probes);
    assert_eq!(found.len(), 1);
    assert_eq!(found[0].path, "/home/u/photos/copy.raw");
    assert_eq!(found[0].category, Category::Duplicate);
    assert_eq!(found[0].reason, "Duplicate of: original.raw");
    assert_eq!(found[0].size, 5 * MIB);
    assert_eq!(found[0].last_accessed, at(2000).unwrap());
    assert!(!found[0].is_directory);
}

#[test]
fn of_identical_files_all_but_the_oldest_are_reported() {
    let config = rooted();
    let probes = vec![
        probe("/d/c", 2 * MIB, 300, Some("aa")),
        probe("/d/a", 2 * MIB, 100, Some("aa")),
        probe("/d/d", 2 * MIB, 400, Some("aa")),
        probe("/d/b", 2 * MIB, 200, Some("aa")),
        probe("/d/e", 2 * MIB, 100, Some("aa")),
    ];
    let found = DuplicatesScanner::find_duplicates(&config, &env(), &probes);
    assert_eq!(paths(&found), vec!["/d/e", "/d/b", "/d/c", "/d/d"]);
    for f in &found {
        assert_eq!(f.reason, "Duplicate of: a");
        assert_eq!(f.category, Category::Duplicate);
    }
}

#[test]
fn files_of_one_size_and_different_contents_are_no_duplicates() {
    let config = rooted();
    let probes = vec![
        probe("/d/a", 2 * MIB, 100, Some("aa")),
        probe("/d/b", 2 * MIB, 200, Some("bb")),
        probe("/d/c", 2 * MIB, 300, Some("cc")),
    ];
    assert_eq!(DuplicatesScanner::hash_candidates(&config, &env(), &probes), vec![0, 1, 2]);
    assert!(DuplicatesScanner::find_duplicates(&config, &env(), &probes).is_empty());
}

#[test]
fn only_files_that_share_their_size_need_a_digest() {
    let mut config = rooted();
    config.excluded_paths = vec!["skipme".to_string()];
    let mut unreadable = probe("/d/unreadable", 3 * MIB, 1, None);
    unreadable.metadata_ok = false;
    let mut directory = probe("/d/dir", 3 * MIB, 1, None);
    directory.is_file = false;
    directory.is_dir = true;
    let probes = vec![
        probe("/d/a", 3 * MIB, 1, None),
        probe("/d/alone", 4 * MIB, 1, None),
        probe("/d/small1", MIB - 1, 1, None),
        probe("/d/small2", MIB - 1, 1, None),
        probe("/d/.hidden", 3 * MIB, 1, None),
        probe("/d/skipme/x", 3 * MIB, 1, None),
        unreadable,
        directory,
        probe("/d/b", 3 * MIB, 1, None),
        probe("/d/exact1", MIB, 1, None),
        probe("/d/exact2", MIB, 1, None),
    ];
    assert_eq!(DuplicatesScanner::hash_candidates(&config, &env(), &probes), vec![0, 8, 9, 10]);
}

#[test]
fn a_file_without_its_digest_is_left_out() {
    let config = rooted();
    let probes = vec![
        probe("/d/a", 2 * MIB, 100, Some("aa")),
        probe("/d/b", 2 * MIB, 50, None),
        probe("/d/c", 2 * MIB, 300, Some("aa")),
    ];
    let found = DuplicatesScanner::find_duplicates(&config, &env(), &probes);
    assert_eq!(paths(&found), vec!["/d/c"]);
    assert_eq!(found[0].reason, "Duplicate of: a");
}

#[test]
fn a_digest_counts_only_where_the_size_is_shared() {
    let config = rooted();
    let probes = vec![
        probe("/d/a", 2 * MIB, 100, Some("aa")),
        probe("/d/b", 3 * MIB, 200, Some("aa")),
    ];
    assert!(DuplicatesScanner::hash_candidates(&config, &env(), &probes).is_empty());
    assert!(DuplicatesScanner::find_duplicates(&config, &env(), &probes).is_empty());
}

#[test]
fn duplicates_are_listed_largest_first_group_by_group() {
    let config = rooted();
    let probes = vec![
        probe("/d/s1", 2 * MIB, 100, Some("small")),
        probe("/d/l1", 9 * MIB, 100, Some("large")),
        probe("/d/s2", 2 * MIB, 200, Some("small")),
        probe("/d/l2", 9 * MIB, 50, Some("large")),
        probe("/d/s3", 2 * MIB, 150, Some("small")),
        probe("/d/t1", 2 * MIB, 10, Some("third")),
        probe("/d/t2", 2 * MIB, 20, Some("third")),
    ];
    let found = DuplicatesScanner::find_duplicates(&config, &env(), &probes);
    assert_eq!(paths(&found), vec!["/d/l1", "/d/s3", "/d/s2", "/d/t2"]);
    assert_eq!(found[0].reason, "Duplicate of: l2");
    assert_eq!(found[1].reason, "Duplicate of: s1");
    assert_eq!(found[3].reason, "Duplicate of: t1");
}

#[test]
fn an_unknown_time_of_access_counts_as_now() {
    let config = rooted();
    let mut unknown = probe("/d/unknown", 2 * MIB, 0, Some("aa"));
    unknown.accessed = None;
    let probes = vec![unknown, probe("/d/known", 2 * MIB, 100, Some("aa"))];
    let found = DuplicatesScanner::find_duplicates(&config, &env(), &probes);
    assert_eq!(paths(&found), vec!["/d/unknown"]);
    assert_eq!(found[0].last_accessed, NOW);
    assert_eq!(found[0].reason, "Duplicate of: known");
}

#[test]
fn a_group_of_one_has_no_duplicates() {
    let one = vec![CleanableFile {
        path: "/d/a".to_string(),
        size: 1,
        category: Category::Duplicate,
        last_accessed: NOW,
        reason: String::new(),
        is_directory: false,
    }];
    assert!(report_group(one).is_empty());
    assert!(report_group(Vec::new()).is_empty());
}

#[test]
fn digests_are_those_of_blake3() {
    assert_eq!(
        hash_chunks(&vec![]).unwrap(),
        "af1349b9f5f9a1a6a0404dea36dcc9499bcb25c9adc112b7cc9a93cae41f3262"
    );
    let data: Vec<u8> = (0..200_000u32).map(|i| (i % 251) as u8).collect();
    let expected = blake3::hash(&data).to_hex().to_string();
    assert_eq!(hash_chunks(&vec![data.clone()]).unwrap(), expected);
    assert_ne!(hash_chunks(&vec![data[1..].to_vec()]).unwrap(), expected);
}

#[test]
fn the_digest_does_not_depend_on_the_chunks() {
    let data: Vec<u8> = (0..300_000u32).map(|i| (i * 7 % 256) as u8).collect();
    let whole = hash_chunks(&vec![data.clone()]).unwrap();
    let chunks: Vec<Vec<u8>> = data.chunks(65536).map(|c| c.to_vec()).collect();
    assert_eq!(hash_chunks(&chunks).unwrap(), whole);
    let mut hasher = ContentHasher::new();
    for c in data.chunks(1000) {
        hasher.feed(c);
    }
    assert_eq!(hasher.finish().unwrap(), whole);
    let mut other = ContentHasher::new();
    other.feed(&data[..10]);
    assert_ne!(other.finish().unwrap(), whole);
}

#[test]
fn a_file_that_cannot_be_read_to_its_end_has_no_digest() {
    let expected = blake3::hash(b"hello world").to_hex().to_string();
    let reads = vec![Some(b"hello ".to_vec()), Some(b"world".to_vec()), Some(Vec::new())];
    assert_eq!(DuplicatesScanner::hash_file(&reads), Some(expected.clone()));
    let reads = vec![Some(b"hello ".to_vec()), Some(b"world".to_vec())];
    assert_eq!(DuplicatesScanner::hash_file(&reads), Some(expected.clone()));
    let reads = vec![Some(b"hello world".to_vec()), Some(Vec::new()), Some(b"more".to_vec()), None];
    assert_eq!(DuplicatesScanner::hash_file(&reads), Some(expected));
    let reads = vec![Some(b"hello ".to_vec()), None, Some(b"world".to_vec())];
    assert_eq!(DuplicatesScanner::hash_file(&reads), None);
    assert_eq!(
        DuplicatesScanner::hash_file(&vec![]),
        Some(blake3::hash(b"").to_hex().to_string())
    );
}

#[test]
fn files_outside_the_walk_are_not_compared() {
    let config = Config::default();
    let probes = vec![
        probe("/home/u/a.bin", 2 * MIB, 100, Some("aa")),
        probe("/srv/b.bin", 2 * MIB, 200, Some("aa")),
        probe("/home/u/.cache/c.bin", 2 * MIB, 300, Some("aa")),
        probe("/home/u/work/target/d.bin", 2 * MIB, 400, Some("aa")),
    ];
    assert!(DuplicatesScanner::hash_candidates(&config, &env(), &probes).is_empty());
    assert!(DuplicatesScanner::find_duplicates(&config, &env(), &probes).is_empty());
    let probes = vec![
        probe("/home/u/a.bin", 2 * MIB, 100, Some("aa")),
        probe("/srv/b.bin", 2 * MIB, 50, Some("aa")),
        probe("/home/u/music/e.bin", 2 * MIB, 500, Some("aa")),
    ];
    assert_eq!(DuplicatesScanner::hash_candidates(&config, &env(), &probes), vec![0, 2]);
    let found = DuplicatesScanner::find_duplicates(&config, &env(), &probes);
    assert_eq!(paths(&found), vec!["/home/u/music/e.bin"]);
    assert_eq!(found[0].reason, "Duplicate of: a.bin");
}

#[test]
fn bytes_are_written_in_lower_case_hexadecimal() {
    assert_eq!(duster::digest::to_hex(&vec![]), "");
    assert_eq!(duster::digest::to_hex(&vec![0x00, 0x0f, 0xa5, 0xff, 0x10]), "000fa5ff10");
    let all: Vec<u8> = (0..=255u8).collect();
    let expected: String = all.iter().map(|b| format!("{:02x}", b)).collect();
    assert_eq!(duster::digest::to_hex(&all), expected);
}
