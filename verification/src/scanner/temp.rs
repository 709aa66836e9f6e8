//! Temporary files that have not been touched for a day.

use crate::cli::string_views;
use crate::config::{excluded_by, option_str_view, Config, ConfigView};
use crate::path::{join, join_paths, paths_equal, same_path};
use crate::scanner::{
    labelled, name_or_unknown, new_file, option_file_view, shown_name, Category, CleanableFile,
    FileProbe, FileView, ProbeView,
};
use crate::text::{chars_of, text_of};
use crate::time::{known_or_now, touched_within, was_touched_within, Timestamp};
use vstd::prelude::*;

verus! {

/// Reports what lies in the directories for temporary files.
#[derive(Debug, Clone, Copy)]
pub struct TempScanner;

/// How many levels below a temporary directory the scanner looks.
pub const TEMP_MAX_DEPTH: usize = 3;

/// For how many days a temporary file counts as possibly in use after it
/// was last modified.
pub const TEMP_RECENT_DAYS: u32 = 1;

/// The smallest size at which a temporary file is reported.
pub const MIN_TEMP_FILE_BYTES: u64 = 1024;

/// The directories for temporary files: `/tmp` and `/var/tmp`, then the
/// directory that the environment names unless it is one of these two, then
/// `Library/Caches/TemporaryItems` in the home directory.
pub open spec fn temp_dirs(env_dir: Option<Seq<char>>, home: Option<Seq<char>>) -> Seq<Seq<char>> {
    let fixed = seq!["/tmp"@, "/var/tmp"@];
    let named = match env_dir {
        Some(d) => if same_path(d, "/tmp"@) || same_path(d, "/var/tmp"@) {
            Seq::empty()
        } else {
            seq![d]
        },
        None => Seq::empty(),
    };
    let of_home = match home {
        Some(home) => seq![join(join(join(home, "Library"@), "Caches"@), "TemporaryItems"@)],
        None => Seq::empty(),
    };
    fixed + named + of_home
}

/// What the temp scanner reports of one entry found below a temporary
/// directory. An entry is no candidate if its path is excluded, if it was
/// modified within the last day, if its metadata cannot be read, or if it is
/// read-only; nor is a file smaller than 1 KiB.
pub open spec fn temp_candidate(cfg: ConfigView, now: Timestamp, p: ProbeView) -> Option<FileView> {
    if excluded_by(cfg.excluded_paths, p.path) || touched_within(
        p.modified,
        TEMP_RECENT_DAYS,
        now,
    ) || !p.metadata_ok || p.readonly || (p.size < MIN_TEMP_FILE_BYTES && !p.is_dir) {
        None
    } else {
        Some(
            FileView {
                path: p.path,
                size: p.size,
                category: Category::Temp,
                last_accessed: known_or_now(p.accessed, now),
                reason: "Temp file: "@ + name_or_unknown(p.path),
                is_directory: p.is_dir,
            },
        )
    }
}

impl TempScanner {
    /// The scanner.
    pub fn new() -> (r: Self) {
        TempScanner
    }

    /// The directories that the scanner is to be shown, given the temporary
    /// directory that the environment names and the home directory.
    pub fn get_temp_dirs(&self, env_dir: Option<&str>, home: Option<&str>) -> (r: Vec<String>)
        ensures
            string_views(r@) == temp_dirs(option_str_view(env_dir), option_str_view(home)),
    {
        let mut dirs: Vec<String> = Vec::new();
        dirs.push(text_of(&chars_of("/tmp")));
        dirs.push(text_of(&chars_of("/var/tmp")));
        assert(string_views(dirs@) =~= seq!["/tmp"@, "/var/tmp"@]);
        if let Some(d) = env_dir {
            if !paths_equal(d, "/tmp") && !paths_equal(d, "/var/tmp") {
                dirs.push(text_of(&chars_of(d)));
                assert(string_views(dirs@) =~= seq!["/tmp"@, "/var/tmp"@] + seq![d@]);
            }
        }
        let ghost sofar = string_views(dirs@);
        if let Some(home) = home {
            let library = join_paths(home, "Library");
            let caches = join_paths(library.as_str(), "Caches");
            dirs.push(join_paths(caches.as_str(), "TemporaryItems"));
            assert(string_views(dirs@) =~= sofar + seq![
                join(join(join(home@, "Library"@), "Caches"@), "TemporaryItems"@),
            ]);
        }
        assert(string_views(dirs@) =~= temp_dirs(option_str_view(env_dir), option_str_view(home)));
        dirs
    }

    /// Decides on one entry found below a temporary directory.
    pub fn examine(config: &Config, now: Timestamp, probe: &FileProbe) -> (r: Option<
        CleanableFile,
    >)
        ensures
            option_file_view(r) == temp_candidate(config@, now, probe@),
    {
        if config.is_excluded(probe.path.as_str()) {
            return None;
        }
        if was_touched_within(probe.modified, TEMP_RECENT_DAYS, now) {
            return None;
        }
        if !probe.metadata_ok || probe.readonly {
            return None;
        }
        if probe.size < MIN_TEMP_FILE_BYTES && !probe.is_dir {
            return None;
        }
        let reason = labelled("Temp file: ", &shown_name(probe.path.as_str()));
        Some(
            new_file(
                &probe.path,
                probe.size,
                Category::Temp,
                Timestamp::known_or(probe.accessed, now),
                &reason,
                probe.is_dir,
            ),
        )
    }
}

impl Default for TempScanner {
    /// The scanner.
    fn default() -> (r: Self) {
        TempScanner::new()
    }
}

} // verus!
