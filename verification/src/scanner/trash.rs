//! The trash bin: everything in it was put there to be deleted.

use crate::config::{excluded_by, Config, ConfigView};
use crate::path::{join, join_paths};
use crate::scanner::{
    labelled, name_or_unknown, new_file, option_file_view, shown_name, Category, CleanableFile,
    FileProbe, FileView, Platform, ProbeView,
};
use crate::cli::string_views;
use crate::config::option_str_view;
use crate::time::{known_or_now, Timestamp};
use vstd::prelude::*;

verus! {

/// Reports what lies in the trash bin.
#[derive(Debug, Clone, Copy)]
pub struct TrashScanner;

/// The directories that hold trashed items: on macOS `.Trash` in the home
/// directory, on Linux `.local/share/Trash/files` in it; none where there
/// is no home directory or the platform has neither.
pub open spec fn trash_dirs(home: Option<Seq<char>>, platform: Platform) -> Seq<Seq<char>> {
    match home {
        None => Seq::empty(),
        Some(home) => match platform {
            Platform::MacOs => seq![join(home, ".Trash"@)],
            Platform::Linux => seq![join(home, ".local/share/Trash/files"@)],
            Platform::Other => Seq::empty(),
        },
    }
}

/// What the trash scanner reports of one child of a trash directory: the
/// entry itself, unless its path is excluded.
pub open spec fn trash_candidate(cfg: ConfigView, now: Timestamp, p: ProbeView) -> Option<
    FileView,
> {
    if excluded_by(cfg.excluded_paths, p.path) {
        None
    } else {
        Some(
            FileView {
                path: p.path,
                size: p.size,
                category: Category::Trash,
                last_accessed: known_or_now(p.accessed, now),
                reason: "Trashed item: "@ + name_or_unknown(p.path),
                is_directory: p.is_dir,
            },
        )
    }
}

impl TrashScanner {
    /// The scanner.
    pub fn new() -> (r: Self) {
        TrashScanner
    }

    /// The directories whose children the scanner is to be shown.
    pub fn get_trash_dirs(&self, home: Option<&str>, platform: Platform) -> (r: Vec<String>)
        ensures
            string_views(r@) == trash_dirs(option_str_view(home), platform),
    {
        let mut dirs: Vec<String> = Vec::new();
        if let Some(home) = home {
            match platform {
                Platform::MacOs => {
                    dirs.push(join_paths(home, ".Trash"));
                },
                Platform::Linux => {
                    dirs.push(join_paths(home, ".local/share/Trash/files"));
                },
                Platform::Other => {},
            }
        }
        assert(string_views(dirs@) =~= trash_dirs(option_str_view(home), platform));
        dirs
    }

    /// Decides on one child of a trash directory.
    pub fn examine(config: &Config, now: Timestamp, probe: &FileProbe) -> (r: Option<
        CleanableFile,
    >)
        ensures
            option_file_view(r) == trash_candidate(config@, now, probe@),
    {
        if config.is_excluded(probe.path.as_str()) {
            return None;
        }
        let reason = labelled("Trashed item: ", &shown_name(probe.path.as_str()));
        Some(
            new_file(
                &probe.path,
                probe.size,
                Category::Trash,
                Timestamp::known_or(probe.accessed, now),
                &reason,
                probe.is_dir,
            ),
        )
    }
}

impl Default for TrashScanner {
    /// The scanner.
    fn default() -> (r: Self) {
        TrashScanner::new()
    }
}

} // verus!
