//! Files in the directories of a user's own data that have not been
//! accessed for a long time.

use crate::config::{excluded_by, Config, ConfigView};
use crate::path::{extension, extension_of, file_name, file_name_chars, is_hidden, path_is_hidden};
use crate::scanner::downloads::{idle_reason, write_idle_reason};
use crate::scanner::{
    name_or_unknown, new_file, option_file_view, shown_name, Category, CleanableFile, FileProbe,
    FileView, ProbeView,
};
use crate::text::{among, chars_of, lowercased, str_views, to_lowercase};
use crate::time::{
    age_in_days, known_or_now, touched_within, was_touched_within, whole_days_between, Timestamp,
};
use vstd::prelude::*;

verus! {

/// Reports files that have not been accessed for a long time.
#[derive(Debug, Clone, Copy)]
pub struct OldFilesScanner;

/// How many files the scanner reports at most.
pub const MAX_OLD_FILES: usize = 200;

/// How many levels below a directory of user data the scanner looks.
pub const OLD_FILES_MAX_DEPTH: usize = 5;

/// The smallest size at which an old file is reported.
pub const MIN_OLD_FILE_BYTES: u64 = 10 * 1024;

/// The directories of a user's own data, by their names in the home
/// directory.
pub open spec fn user_data_dir_names() -> Seq<Seq<char>> {
    seq!["Documents"@, "Desktop"@, "Pictures"@, "Movies"@, "Music"@]
}

/// The names of the directories that a walk for old files does not enter,
/// besides those whose names begin with a `.`.
pub open spec fn old_skip_dirs() -> Seq<Seq<char>> {
    seq![
        "node_modules"@,
        "target"@,
        "Library"@,
        "Applications"@,
        ".Trash"@,
        "Volumes"@,
        "System"@,
        "bin"@,
        "lib"@,
        "include"@,
        "share"@,
    ]
}

/// Whether a walk for old files leaves the directory at `path` out: its
/// name begins with a `.`, or it is one of the names above.
pub open spec fn old_walk_skips(path: Seq<char>) -> bool {
    match file_name(path) {
        Some(name) => (name.len() > 0 && name[0] == '.') || old_skip_dirs().contains(name),
        None => false,
    }
}

/// The extensions of files that belong to the system.
pub open spec fn system_extensions() -> Seq<Seq<char>> {
    seq!["plist"@, "dylib"@, "so"@, "dll"@, "sys"@, "kext"@, "bundle"@]
}

/// Whether a file belongs to the system, by its extension.
pub open spec fn system_file(path: Seq<char>) -> bool {
    match extension(path) {
        Some(ext) => system_extensions().contains(lowercased(ext)),
        None => false,
    }
}

/// What the scanner reports of one entry that the walk visited. A
/// candidate is a regular file of at least 10 KiB that was not accessed
/// within the days that the settings give; it is none if its path is
/// excluded, if its name begins with a `.`, if it belongs to the system, or
/// if its metadata cannot be read.
pub open spec fn old_file_candidate(cfg: ConfigView, now: Timestamp, p: ProbeView) -> Option<
    FileView,
> {
    if !p.is_file || excluded_by(cfg.excluded_paths, p.path)
        || is_hidden(p.path) || system_file(p.path) || touched_within(
        p.accessed,
        cfg.min_age_days,
        now,
    ) || !p.metadata_ok || p.size < MIN_OLD_FILE_BYTES {
        None
    } else {
        let accessed = known_or_now(p.accessed, now);
        Some(
            FileView {
                path: p.path,
                size: p.size,
                category: Category::OldFile,
                last_accessed: accessed,
                reason: idle_reason(
                    "Not accessed in "@,
                    whole_days_between(now, accessed),
                    name_or_unknown(p.path),
                ),
                is_directory: false,
            },
        )
    }
}

/// The names of the directories that the walk does not enter.
pub fn skip_dir_list() -> (r: Vec<&'static str>)
    ensures
        str_views(r@) == old_skip_dirs(),
{
    let mut v: Vec<&'static str> = Vec::new();
    v.push("node_modules");
    v.push("target");
    v.push("Library");
    v.push("Applications");
    v.push(".Trash");
    v.push("Volumes");
    v.push("System");
    v.push("bin");
    v.push("lib");
    v.push("include");
    v.push("share");
    assert(str_views(v@) =~= old_skip_dirs());
    v
}

fn system_extension_list() -> (r: Vec<&'static str>)
    ensures
        str_views(r@) == system_extensions(),
{
    let mut v: Vec<&'static str> = Vec::new();
    v.push("plist");
    v.push("dylib");
    v.push("so");
    v.push("dll");
    v.push("sys");
    v.push("kext");
    v.push("bundle");
    assert(str_views(v@) =~= system_extensions());
    v
}

impl OldFilesScanner {
    /// The scanner.
    pub fn new() -> (r: Self) {
        OldFilesScanner
    }

    /// The directories of a user's own data, by their names in the home
    /// directory.
    pub fn user_data_dirs() -> (r: Vec<&'static str>)
        ensures
            str_views(r@) == user_data_dir_names(),
    {
        let mut v: Vec<&'static str> = Vec::new();
        v.push("Documents");
        v.push("Desktop");
        v.push("Pictures");
        v.push("Movies");
        v.push("Music");
        assert(str_views(v@) =~= user_data_dir_names());
        v
    }

    /// Whether a walk for old files leaves the directory at `path` out.
    pub fn should_skip_dir(path: &str) -> (r: bool)
        ensures
            r == old_walk_skips(path@),
    {
        match file_name_chars(path) {
            Some(name) => {
                if name.len() > 0 && name[0] == '.' {
                    return true;
                }
                among(&name, &skip_dir_list())
            },
            None => false,
        }
    }

    /// Whether the file at `path` belongs to the system, by its extension.
    pub fn is_system_file(path: &str) -> (r: bool)
        ensures
            r == system_file(path@),
    {
        match extension_of(path) {
            Some(ext) => {
                let lower = chars_of(to_lowercase(ext.as_str()).as_str());
                among(&lower, &system_extension_list())
            },
            None => false,
        }
    }

    /// Decides on one entry that the walk visited.
    pub fn examine(config: &Config, now: Timestamp, probe: &FileProbe) -> (r: Option<
        CleanableFile,
    >)
        ensures
            option_file_view(r) == old_file_candidate(config@, now, probe@),
    {
        if !probe.is_file {
            return None;
        }
        if config.is_excluded(probe.path.as_str()) {
            return None;
        }
        if path_is_hidden(probe.path.as_str()) {
            return None;
        }
        if OldFilesScanner::is_system_file(probe.path.as_str()) {
            return None;
        }
        if was_touched_within(probe.accessed, config.min_age_days, now) {
            return None;
        }
        if !probe.metadata_ok || probe.size < MIN_OLD_FILE_BYTES {
            return None;
        }
        let accessed = Timestamp::known_or(probe.accessed, now);
        let reason = write_idle_reason(
            "Not accessed in ",
            age_in_days(now, accessed),
            &shown_name(probe.path.as_str()),
        );
        Some(new_file(&probe.path, probe.size, Category::OldFile, accessed, &reason, false))
    }
}

impl Default for OldFilesScanner {
    /// The scanner.
    fn default() -> (r: Self) {
        OldFilesScanner::new()
    }
}

} // verus!
