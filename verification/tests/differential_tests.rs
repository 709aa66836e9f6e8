use duster::analyzer::remove_repeated_paths;
use duster::cli::ScanOptions;
use duster::config::{parse_size_mb, Config};
use duster::path::{
    components_of, extension_of, file_name_of, has_component, join_paths, path_is_child_of,
    path_is_hidden, path_is_within, paths_equal,
};
use duster::ranking::{sort_files, sort_files_within, Ranking};
use duster::scan_cache::options_fingerprint;
use duster::scanner::build_artifacts::BuildArtifactsScanner;
use duster::scanner::duplicates::DuplicatesScanner;
use duster::scanner::large_files::LargeFilesScanner;
use duster::scanner::old_files::OldFilesScanner;
use duster::scanner::scope::scope_of;
use duster::scanner::{
    was_accessed_within_days, Category, CleanableFile, Environment, Platform, ScannerKind,
};
use duster::text::{read_u64, text_of, trim};
use duster::time::{age_in_days, Timestamp};
use duster::ui::{format_duration, format_number};
use std::path::{Component, Path, PathBuf};

struct Random(u64);

impl Random {
    fn next(&mut self) -> u64 {
        self.0 ^= self.0 << 13;
        self.0 ^= self.0 >> 7;
        self.0 ^= self.0 << 17;
        self.0
    }

    fn below(&mut self, n: u64) -> u64 {
        self.next() % n
    }

    fn text(&mut self, alphabet: &[&str], max_len: u64) -> String {
        let len = self.below(max_len + 1);
        let mut out = String::new();
        for _ in 0..len {
            out.push_str(alphabet[self.below(alphabet.len() as u64) as usize]);
        }
        out
    }
}

const PATH_ALPHABET: [&str; 8] = ["/", "/", ".", "a", "b", "é", "_", "x.y"];

fn std_components(text: &str) -> Vec<String> {
    Path::new(text)
        .components()
        .map(|c| match c {
            Component::RootDir => String::new(),
            other => other.as_os_str().to_string_lossy().to_string(),
        })
        .collect()
}

#[test]
fn paths_are_read_as_the_standard_library_reads_them() {
    let mut random = Random(0x1234_5678_9abc_def1);
    for _ in 0..20000 {
        let p = random.text(&PATH_ALPHABET, 12);
        let q = random.text(&PATH_ALPHABET, 8);
        let parts: Vec<String> =
            components_of(&p).into_iter().map(|c| c.into_iter().collect()).collect();
        assert_eq!(parts, std_components(&p), "components of {:?}", p);
        assert_eq!(
            file_name_of(&p),
            Path::new(&p).file_name().map(|n| n.to_string_lossy().to_string()),
            "file name of {:?}",
            p
        );
        assert_eq!(
            extension_of(&p),
            Path::new(&p).extension().map(|n| n.to_string_lossy().to_string()),
            "extension of {:?}",
            p
        );
        assert_eq!(path_is_within(&p, &q), Path::new(&p).starts_with(&q), "{:?} within {:?}", p, q);
        assert_eq!(paths_equal(&p, &q), Path::new(&p) == Path::new(&q), "{:?} equals {:?}", p, q);
        assert_eq!(
            path_is_child_of(&p, &q),
            Path::new(&p).parent() == Some(Path::new(&q)),
            "{:?} child of {:?}",
            p,
            q
        );
        assert_eq!(
            join_paths(&p, &q),
            Path::new(&p).join(&q).to_string_lossy().to_string(),
            "{:?} joined with {:?}",
            p,
            q
        );
        assert_eq!(
            path_is_hidden(&p),
            Path::new(&p).file_name().map(|n| n.to_string_lossy().starts_with('.')).unwrap_or(false),
            "{:?} hidden",
            p
        );
        assert_eq!(
            has_component(&p, "a"),
            Path::new(&p).components().any(|c| c.as_os_str() == "a"),
            "{:?} has a",
            p
        );
    }
}

fn excluded_by_the_book(patterns: &[String], path: &str) -> bool {
    patterns.iter().any(|pattern| {
        if pattern.contains('*') {
            let parts: Vec<&str> = pattern.split('*').collect();
            if parts.len() == 2 {
                let (prefix, suffix) = (parts[0], parts[1]);
                return path.starts_with(prefix) && path.ends_with(suffix);
            }
        }
        path.contains(pattern.as_str())
    })
}

#[test]
fn exclusions_match_as_patterns_are_read() {
    let mut random = Random(0x0bad_cafe_dead_beef);
    let alphabet = ["a", "b", "/", "*", "ab", "é"];
    for _ in 0..20000 {
        let mut config = Config::default();
        let count = random.below(3);
        for _ in 0..count {
            config.excluded_paths.push(random.text(&alphabet, 4));
        }
        let path = random.text(&alphabet[..3], 8);
        assert_eq!(
            config.is_excluded(&path),
            excluded_by_the_book(&config.excluded_paths, &path),
            "{:?} against {:?}",
            path,
            config.excluded_paths
        );
    }
}

fn size_by_the_book(s: &str) -> Option<u64> {
    let s = s.trim().to_uppercase();
    if let Some(num_str) = s.strip_suffix("GB") {
        return num_str.trim().parse::<u64>().ok().and_then(|n| n.checked_mul(1024));
    }
    if let Some(num_str) = s.strip_suffix("MB") {
        return num_str.trim().parse::<u64>().ok();
    }
    if let Some(num_str) = s.strip_suffix("KB") {
        return num_str.trim().parse::<u64>().ok().map(|n| n / 1024);
    }
    if let Some(num_str) = s.strip_suffix('G') {
        return num_str.trim().parse::<u64>().ok().and_then(|n| n.checked_mul(1024));
    }
    if let Some(num_str) = s.strip_suffix('M') {
        return num_str.trim().parse::<u64>().ok();
    }
    if let Some(num_str) = s.strip_suffix('K') {
        return num_str.trim().parse::<u64>().ok().map(|n| n / 1024);
    }
    s.parse::<u64>().ok()
}

#[test]
fn sizes_are_read_as_written() {
    let mut random = Random(0x7777_1234_4321_7777);
    let alphabet = ["1", "2", "0", "9", " ", "g", "G", "m", "M", "k", "K", "b", "B", "+", "x"];
    for _ in 0..40000 {
        let text = random.text(&alphabet, 7);
        assert_eq!(parse_size_mb(&text), size_by_the_book(&text), "size {:?}", text);
    }
    let digits = ["1", "8", "4", "0", "9", "7", "+"];
    for _ in 0..20000 {
        let text = random.text(&digits, 22);
        let chars: Vec<char> = text.chars().collect();
        assert_eq!(read_u64(&chars), text.parse::<u64>().ok(), "number {:?}", text);
        let padded = format!(" \t{}\n", text);
        let chars: Vec<char> = padded.chars().collect();
        assert_eq!(text_of(&trim(&chars)), padded.trim());
    }
}

#[test]
fn counts_and_durations_are_written_as_formatted() {
    let mut random = Random(0x5555_aaaa_5555_aaaa);
    for _ in 0..20000 {
        let n = random.next() >> random.below(64);
        let digits = n.to_string();
        let mut expected = String::new();
        for (i, c) in digits.chars().rev().enumerate() {
            if i > 0 && i % 3 == 0 {
                expected.push(',');
            }
            expected.push(c);
        }
        let expected: String = expected.chars().rev().collect();
        assert_eq!(format_number(n), expected);
        let expected = if n < 60 {
            format!("{}s", n)
        } else if n < 3600 {
            format!("{}m {}s", n / 60, n % 60)
        } else {
            format!("{}h {}m", n / 3600, (n % 3600) / 60)
        };
        assert_eq!(format_duration(n), expected);
    }
}

fn random_file(random: &mut Random) -> CleanableFile {
    CleanableFile {
        path: random.text(&["/", "a", "b", "."], 6),
        size: random.below(4),
        category: Category::Temp,
        last_accessed: Timestamp { secs: random.below(3) as i64, nanos: random.below(2) as u32 },
        reason: random.next().to_string(),
        is_directory: false,
    }
}

fn instant(t: Timestamp) -> i128 {
    t.secs as i128 * 1_000_000_000 + t.nanos as i128
}

#[test]
fn files_are_sorted_as_a_stable_sort_sorts_them() {
    let mut random = Random(0x1357_9bdf_0246_8ace);
    for _ in 0..3000 {
        let count = random.below(12);
        let files: Vec<CleanableFile> = (0..count).map(|_| random_file(&mut random)).collect();
        for order in [Ranking::LargestFirst, Ranking::OldestFirst, Ranking::OldestThenLargest] {
            let mut expected: Vec<CleanableFile> = files.iter().map(|f| f.duplicate()).collect();
            match order {
                Ranking::LargestFirst => expected.sort_by(|a, b| b.size.cmp(&a.size)),
                Ranking::OldestFirst => {
                    expected.sort_by(|a, b| instant(a.last_accessed).cmp(&instant(b.last_accessed)))
                }
                Ranking::OldestThenLargest => expected.sort_by(|a, b| {
                    instant(a.last_accessed)
                        .cmp(&instant(b.last_accessed))
                        .then(b.size.cmp(&a.size))
                }),
            }
            let sorted = sort_files(files.iter().map(|f| f.duplicate()).collect(), order);
            let got: Vec<&String> = sorted.iter().map(|f| &f.reason).collect();
            let want: Vec<&String> = expected.iter().map(|f| &f.reason).collect();
            assert_eq!(got, want);
            let limit = random.below(14) as usize;
            let first =
                sort_files_within(files.iter().map(|f| f.duplicate()).collect(), order, limit);
            let got: Vec<&String> = first.iter().map(|f| &f.reason).collect();
            let want: Vec<&String> = expected.iter().take(limit).map(|f| &f.reason).collect();
            assert_eq!(got, want);
        }
    }
}

#[test]
fn repeated_paths_go_as_from_a_set_of_paths() {
    let mut random = Random(0x2468_ace0_1357_9bdf);
    for _ in 0..3000 {
        let count = random.below(12);
        let files: Vec<CleanableFile> = (0..count).map(|_| random_file(&mut random)).collect();
        let mut expected: Vec<CleanableFile> = files.iter().map(|f| f.duplicate()).collect();
        let mut seen = std::collections::HashSet::new();
        expected.retain(|f| seen.insert(PathBuf::from(&f.path)));
        let kept = remove_repeated_paths(files);
        let got: Vec<&String> = kept.iter().map(|f| &f.reason).collect();
        let want: Vec<&String> = expected.iter().map(|f| &f.reason).collect();
        assert_eq!(got, want);
    }
}

#[test]
fn times_are_reckoned_as_the_calendar_reckons_them() {
    let mut random = Random(0x0f0f_f0f0_1234_4321);
    for _ in 0..20000 {
        let now_secs = 1_700_000_000 + (random.below(2_000_000) as i64) - 1_000_000;
        let then_secs = now_secs - (random.below(90 * 86_400 * 2) as i64) + 90 * 86_400 / 2;
        let now_nanos = random.below(1_000_000_000) as u32;
        let then_nanos = random.below(1_000_000_000) as u32;
        let days = random.below(120) as u32;
        let now = chrono::DateTime::from_timestamp(now_secs, now_nanos).unwrap();
        let then = chrono::DateTime::from_timestamp(then_secs, then_nanos).unwrap();
        let mine_now = Timestamp { secs: now_secs, nanos: now_nanos };
        let mine_then = Timestamp { secs: then_secs, nanos: then_nanos };
        let threshold = now - chrono::Duration::days(days as i64);
        assert_eq!(was_accessed_within_days(Some(mine_then), days, mine_now), then > threshold);
        assert_eq!(age_in_days(mine_now, mine_then), (now - then).num_days());
    }
}

#[test]
fn fingerprints_are_written_as_formatted() {
    let mut random = Random(0x9999_8888_7777_6666);
    let alphabet = ["a", "b", "\"", "\\", "\n", " ", "é", "\u{7f}", "'", "\t", "\u{301}", "z"];
    for _ in 0..5000 {
        let flag = |random: &mut Random| random.below(2) == 0;
        let number = |random: &mut Random| {
            if random.below(2) == 0 {
                None
            } else {
                Some((random.next() >> random.below(64)) as u32)
            }
        };
        let count = random.below(4);
        let options = ScanOptions {
            all: flag(&mut random),
            cache: flag(&mut random),
            trash: flag(&mut random),
            temp: flag(&mut random),
            downloads: flag(&mut random),
            build: flag(&mut random),
            large: flag(&mut random),
            duplicates: flag(&mut random),
            old: flag(&mut random),
            min_age: number(&mut random),
            min_size: if random.below(2) == 0 { None } else { Some(random.text(&alphabet, 5)) },
            project_age: number(&mut random),
            path: if random.below(2) == 0 { None } else { Some(random.text(&alphabet, 5)) },
            exclude: (0..count).map(|_| random.text(&alphabet, 3)).collect(),
            json: flag(&mut random),
        };
        let path = options.path.clone().unwrap_or_default();
        let mut exclude = options.exclude.clone();
        exclude.sort();
        let expected = format!(
            "path={} all={} cache={} trash={} temp={} downloads={} build={} large={} duplicates={} old={} min_age={:?} min_size={:?} project_age={:?} exclude={:?}",
            path,
            options.all,
            options.cache,
            options.trash,
            options.temp,
            options.downloads,
            options.build,
            options.large,
            options.duplicates,
            options.old,
            options.min_age,
            options.min_size,
            options.project_age,
            exclude,
        );
        assert_eq!(options_fingerprint(&options), expected);
    }
}

fn walk_reaches(root: &str, names: &[&str], enters: &dyn Fn(&str, bool) -> bool) -> bool {
    let mut path = root.to_string();
    if !enters(&path, names.is_empty()) {
        return false;
    }
    for (i, name) in names.iter().enumerate() {
        path = Path::new(&path).join(name).to_string_lossy().to_string();
        if !enters(&path, i + 1 == names.len()) {
            return false;
        }
    }
    true
}

#[test]
fn scopes_hold_what_the_walks_reach() {
    let mut random = Random(0xabcd_ef01_2345_6789);
    let names = [
        "node_modules",
        ".hid",
        ".venv",
        "target",
        "bin",
        "x",
        "Library",
        ".git",
        ".cache",
        "Caches",
        "src",
        "..",
        ".next",
    ];
    let roots = [
        "/",
        "/home/u",
        "/home/u/",
        "/data/node_modules",
        "/data/.hid",
        "/srv/target/x",
        "rel",
        ".",
        "./sub",
        "/a/..",
        "..",
    ];
    for _ in 0..20000 {
        let root = roots[random.below(roots.len() as u64) as usize];
        let depth = random.below(7);
        let chosen: Vec<&str> =
            (0..depth).map(|_| names[random.below(names.len() as u64) as usize]).collect();
        let mut entry = PathBuf::from(root);
        for name in &chosen {
            entry.push(name);
        }
        let entry = entry.to_string_lossy().to_string();
        if chosen.iter().any(|n| *n == "..") {
            continue;
        }
        let mut config = Config::default();
        config.base_path = Some(root.to_string());
        let env = Environment {
            now: Timestamp { secs: 0, nanos: 0 },
            home: Some("/home/u".to_string()),
            platform: Platform::Linux,
            temp_dir: None,
            downloads_dir: None,
        };

        let scope = scope_of(ScannerKind::LargeFiles, &config, &env);
        let reached = walk_reaches(root, &chosen, &|p, last| {
            last || !LargeFilesScanner::should_skip_dir(p)
        });
        assert_eq!(scope.holds(&entry, false), reached, "large files: {:?} from {:?}", entry, root);

        let scope = scope_of(ScannerKind::Duplicates, &config, &env);
        let reached = walk_reaches(root, &chosen, &|p, last| {
            last || !DuplicatesScanner::should_skip_dir(p)
        });
        assert_eq!(scope.holds(&entry, false), reached, "duplicates: {:?} from {:?}", entry, root);

        let scope = scope_of(ScannerKind::BuildArtifacts, &config, &env);
        let reached = walk_reaches(root, &chosen, &|p, _| BuildArtifactsScanner::should_visit(p));
        assert_eq!(scope.holds(&entry, true), reached, "artifacts: {:?} from {:?}", entry, root);

        let old_root = "/home/u/Documents";
        let mut old_entry = PathBuf::from(old_root);
        for name in &chosen {
            old_entry.push(name);
        }
        let old_entry = old_entry.to_string_lossy().to_string();
        let scope = scope_of(ScannerKind::OldFiles, &config, &env);
        let reached = chosen.len() <= 5
            && walk_reaches(old_root, &chosen, &|p, last| {
                last || !OldFilesScanner::should_skip_dir(p)
            });
        assert_eq!(scope.holds(&old_entry, false), reached, "old files: {:?}", old_entry);
    }
}
