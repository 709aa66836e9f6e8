//! Caches of the system and of applications.

use crate::cli::string_views;
use crate::config::{excluded_by, option_str_view, Config, ConfigView};
use crate::path::{join, join_paths, paths_equal, same_path};
use crate::scanner::{
    labelled, name_or_unknown, new_file, option_file_view, shown_name, Category, CleanableFile,
    FileProbe, FileView, Platform, ProbeView,
};
use crate::text::chars_of;
use crate::time::{known_or_now, Timestamp};
use vstd::prelude::*;

verus! {

/// Reports the entries of the cache directories.
#[derive(Debug, Clone, Copy)]
pub struct CacheScanner;

/// Reports the caches of applications that are known to be safe to delete.
#[derive(Debug, Clone, Copy)]
pub struct KnownCacheScanner;

/// The smallest size at which an entry of a cache directory is reported.
pub const MIN_CACHE_ENTRY_BYTES: u64 = 1024 * 1024;

/// The smallest size at which a known cache is reported.
pub const MIN_KNOWN_CACHE_BYTES: u64 = 10 * 1024 * 1024;

/// The cache directories: in the home directory, if there is one,
/// `Library/Caches` on macOS and `.cache` everywhere; then the cache paths
/// of the settings.
pub open spec fn cache_dirs(cfg: ConfigView, home: Option<Seq<char>>, platform: Platform) -> Seq<
    Seq<char>,
> {
    let of_home = match home {
        None => Seq::empty(),
        Some(home) => if platform == Platform::MacOs {
            seq![join(join(home, "Library"@), "Caches"@), join(home, ".cache"@)]
        } else {
            seq![join(home, ".cache"@)]
        },
    };
    of_home + cfg.cache_paths
}

/// What the cache scanner reports of one child of a cache directory: the
/// entry itself, unless its path is excluded or it is smaller than 1 MiB.
pub open spec fn cache_candidate(cfg: ConfigView, now: Timestamp, p: ProbeView) -> Option<
    FileView,
> {
    if excluded_by(cfg.excluded_paths, p.path) || p.size < MIN_CACHE_ENTRY_BYTES {
        None
    } else {
        Some(
            FileView {
                path: p.path,
                size: p.size,
                category: Category::Cache,
                last_accessed: known_or_now(p.accessed, now),
                reason: "Cache directory: "@ + name_or_unknown(p.path),
                is_directory: p.is_dir,
            },
        )
    }
}

impl CacheScanner {
    /// The scanner.
    pub fn new() -> (r: Self) {
        CacheScanner
    }

    /// The directories whose children the scanner is to be shown.
    pub fn get_cache_dirs(&self, config: &Config, home: Option<&str>, platform: Platform) -> (r:
        Vec<String>)
        ensures
            string_views(r@) == cache_dirs(config@, option_str_view(home), platform),
    {
        let mut dirs: Vec<String> = Vec::new();
        if let Some(home) = home {
            match platform {
                Platform::MacOs => {
                    let library = join_paths(home, "Library");
                    dirs.push(join_paths(library.as_str(), "Caches"));
                },
                _ => {},
            }
            dirs.push(join_paths(home, ".cache"));
        }
        let ghost of_home = string_views(dirs@);
        let mut i: usize = 0;
        while i < config.cache_paths.len()
            invariant
                i <= config.cache_paths.len(),
                string_views(dirs@) == of_home + config@.cache_paths.take(i as int),
            decreases config.cache_paths.len() - i,
        {
            let ghost before = string_views(dirs@);
            dirs.push(config.cache_paths[i].clone());
            assert(string_views(dirs@) == before.push(config.cache_paths@[i as int]@));
            i += 1;
        }
        assert(config@.cache_paths.take(config.cache_paths.len() as int) == config@.cache_paths);
        dirs
    }

    /// Decides on one child of a cache directory.
    pub fn examine(config: &Config, now: Timestamp, probe: &FileProbe) -> (r: Option<
        CleanableFile,
    >)
        ensures
            option_file_view(r) == cache_candidate(config@, now, probe@),
    {
        if config.is_excluded(probe.path.as_str()) {
            return None;
        }
        if probe.size < MIN_CACHE_ENTRY_BYTES {
            return None;
        }
        let reason = labelled("Cache directory: ", &shown_name(probe.path.as_str()));
        Some(
            new_file(
                &probe.path,
                probe.size,
                Category::Cache,
                Timestamp::known_or(probe.accessed, now),
                &reason,
                probe.is_dir,
            ),
        )
    }
}

impl Default for CacheScanner {
    /// The scanner.
    fn default() -> (r: Self) {
        CacheScanner::new()
    }
}

/// The texts of a list of pairs of string slices.
pub open spec fn pair_views(list: Seq<(&'static str, &'static str)>) -> Seq<
    (Seq<char>, Seq<char>),
> {
    list.map_values(|e: (&'static str, &'static str)| (e.0@, e.1@))
}

/// The caches that are known to be safe to delete: where each lies below
/// the home directory, and what it is.
pub open spec fn known_cache_list() -> Seq<(Seq<char>, Seq<char>)> {
    seq![
        ("Library/Caches/Homebrew"@, "Homebrew downloads cache"@),
        (".npm/_cacache"@, "npm cache"@),
        (".yarn/cache"@, "Yarn cache"@),
        (".pnpm-store"@, "pnpm cache"@),
        (".cargo/registry/cache"@, "Cargo registry cache"@),
        (".gradle/caches"@, "Gradle cache"@),
        (".m2/repository"@, "Maven cache"@),
        (".nuget/packages"@, "NuGet cache"@),
        (".cache/pip"@, "pip cache"@),
        (".cache/go-build"@, "Go build cache"@),
        ("Library/Caches/com.apple.dt.Xcode"@, "Xcode cache"@),
        ("Library/Caches/JetBrains"@, "JetBrains IDEs cache"@),
        ("Library/Caches/com.microsoft.VSCode"@, "VS Code cache"@),
        (".vscode-server"@, "VS Code Server"@),
        ("Library/Caches/com.google.Chrome"@, "Chrome browser cache"@),
        ("Library/Caches/com.brave.Browser"@, "Brave browser cache"@),
        ("Library/Caches/org.mozilla.firefox"@, "Firefox browser cache"@),
        ("Library/Caches/com.apple.Safari"@, "Safari browser cache"@),
        ("Library/Caches/com.spotify.client"@, "Spotify cache"@),
        ("Library/Caches/com.docker.docker"@, "Docker cache"@),
        ("Library/Caches/Slack"@, "Slack cache"@),
    ]
}

/// What the first place of `list` that lies at `path`, taken from `home`,
/// is said to be.
pub open spec fn described_as(
    list: Seq<(Seq<char>, Seq<char>)>,
    home: Seq<char>,
    path: Seq<char>,
) -> Option<Seq<char>>
    decreases list.len(),
{
    if list.len() == 0 {
        None
    } else if same_path(join(home, list[0].0), path) {
        Some(list[0].1)
    } else {
        described_as(list.skip(1), home, path)
    }
}

/// What is reported of a directory that is one of the listed places below
/// the home directory: the directory with the description from the list,
/// unless its path is excluded or it is smaller than 10 MiB. The time
/// reported is `stamp`, or `now` where that is not known.
pub open spec fn listed_candidate(
    list: Seq<(Seq<char>, Seq<char>)>,
    category: Category,
    cfg: ConfigView,
    home: Option<Seq<char>>,
    now: Timestamp,
    path: Seq<char>,
    size: u64,
    stamp: Option<Timestamp>,
) -> Option<FileView> {
    match home {
        None => None,
        Some(home) => match described_as(list, home, path) {
            None => None,
            Some(description) => if excluded_by(cfg.excluded_paths, path) || size
                < MIN_KNOWN_CACHE_BYTES {
                None
            } else {
                Some(
                    FileView {
                        path,
                        size,
                        category,
                        last_accessed: known_or_now(stamp, now),
                        reason: description,
                        is_directory: true,
                    },
                )
            },
        },
    }
}

/// What the known-cache scanner reports of one directory.
pub open spec fn known_cache_candidate(
    cfg: ConfigView,
    home: Option<Seq<char>>,
    now: Timestamp,
    p: ProbeView,
) -> Option<FileView> {
    listed_candidate(
        known_cache_list(),
        Category::Cache,
        cfg,
        home,
        now,
        p.path,
        p.size,
        p.accessed,
    )
}

/// Looks up what the list calls the place at `path`.
pub fn describe(list: &Vec<(&'static str, &'static str)>, home: &str, path: &str) -> (r: Option<
    Vec<char>,
>)
    ensures
        match r {
            Some(d) => described_as(pair_views(list@), home@, path@) == Some(d@),
            None => described_as(pair_views(list@), home@, path@) is None,
        },
{
    let mut i: usize = 0;
    assert(pair_views(list@).skip(0) == pair_views(list@));
    while i < list.len()
        invariant
            i <= list.len(),
            described_as(pair_views(list@), home@, path@) == described_as(
                pair_views(list@).skip(i as int),
                home@,
                path@,
            ),
        decreases list.len() - i,
    {
        let entry = &list[i];
        let place = join_paths(home, entry.0);
        proof {
            let rest = pair_views(list@).skip(i as int);
            assert(rest[0] == (entry.0@, entry.1@));
            assert(rest.skip(1) == pair_views(list@).skip(i + 1));
        }
        if paths_equal(place.as_str(), path) {
            return Some(chars_of(entry.1));
        }
        i += 1;
    }
    None
}

/// Decides on one directory by a list of places below the home directory.
pub fn examine_listed(
    list: &Vec<(&'static str, &'static str)>,
    category: Category,
    config: &Config,
    home: Option<&str>,
    now: Timestamp,
    probe: &FileProbe,
    stamp: Option<Timestamp>,
) -> (r: Option<CleanableFile>)
    ensures
        option_file_view(r) == listed_candidate(
            pair_views(list@),
            category,
            config@,
            option_str_view(home),
            now,
            probe@.path,
            probe.size,
            stamp,
        ),
{
    match home {
        None => None,
        Some(home) => match describe(list, home, probe.path.as_str()) {
            None => None,
            Some(description) => {
                if config.is_excluded(probe.path.as_str()) {
                    return None;
                }
                if probe.size < MIN_KNOWN_CACHE_BYTES {
                    return None;
                }
                Some(
                    new_file(
                        &probe.path,
                        probe.size,
                        category,
                        Timestamp::known_or(stamp, now),
                        &description,
                        true,
                    ),
                )
            },
        },
    }
}

impl KnownCacheScanner {
    /// The scanner.
    pub fn new() -> (r: Self) {
        KnownCacheScanner
    }

    /// The caches that are known to be safe to delete: where each lies
    /// below the home directory, and what it is.
    pub fn known_caches() -> (r: Vec<(&'static str, &'static str)>)
        ensures
            pair_views(r@) == known_cache_list(),
    {
        let mut v: Vec<(&'static str, &'static str)> = Vec::new();
        v.push(("Library/Caches/Homebrew", "Homebrew downloads cache"));
        v.push((".npm/_cacache", "npm cache"));
        v.push((".yarn/cache", "Yarn cache"));
        v.push((".pnpm-store", "pnpm cache"));
        v.push((".cargo/registry/cache", "Cargo registry cache"));
        v.push((".gradle/caches", "Gradle cache"));
        v.push((".m2/repository", "Maven cache"));
        v.push((".nuget/packages", "NuGet cache"));
        v.push((".cache/pip", "pip cache"));
        v.push((".cache/go-build", "Go build cache"));
        v.push(("Library/Caches/com.apple.dt.Xcode", "Xcode cache"));
        v.push(("Library/Caches/JetBrains", "JetBrains IDEs cache"));
        v.push(("Library/Caches/com.microsoft.VSCode", "VS Code cache"));
        v.push((".vscode-server", "VS Code Server"));
        v.push(("Library/Caches/com.google.Chrome", "Chrome browser cache"));
        v.push(("Library/Caches/com.brave.Browser", "Brave browser cache"));
        v.push(("Library/Caches/org.mozilla.firefox", "Firefox browser cache"));
        v.push(("Library/Caches/com.apple.Safari", "Safari browser cache"));
        v.push(("Library/Caches/com.spotify.client", "Spotify cache"));
        v.push(("Library/Caches/com.docker.docker", "Docker cache"));
        v.push(("Library/Caches/Slack", "Slack cache"));
        assert(pair_views(v@) =~= known_cache_list());
        v
    }

    /// Decides on one directory.
    pub fn examine(config: &Config, home: Option<&str>, now: Timestamp, probe: &FileProbe) -> (r:
        Option<CleanableFile>)
        ensures
            option_file_view(r) == known_cache_candidate(
                config@,
                option_str_view(home),
                now,
                probe@,
            ),
    {
        let list = KnownCacheScanner::known_caches();
        examine_listed(&list, Category::Cache, config, home, now, probe, probe.accessed)
    }
}

impl Default for KnownCacheScanner {
    /// The scanner.
    fn default() -> (r: Self) {
        KnownCacheScanner::new()
    }
}

} // verus!
