//! Downloads that have not been opened for a long time.

use crate::config::{excluded_by, Config, ConfigView};
use crate::path::{is_hidden, path_is_hidden};
use crate::scanner::{
    name_or_unknown, new_file, option_file_view, shown_name, Category, CleanableFile, FileProbe,
    FileView, ProbeView,
};
use crate::text::{append_chars, append_str, push_signed_decimal, signed_decimal};
use crate::time::{
    age_in_days, known_or_now, touched_within, was_touched_within, whole_days_between, Timestamp,
};
use vstd::prelude::*;

verus! {

/// Reports the entries of the downloads directory.
#[derive(Debug, Clone, Copy)]
pub struct DownloadsScanner;

/// How many levels below the downloads directory the scanner looks.
pub const DOWNLOADS_MAX_DEPTH: usize = 1;

/// The sentence that says for how long a file of the given name has not
/// been accessed, with the words that open it.
pub open spec fn idle_reason(opening: Seq<char>, days: int, name: Seq<char>) -> Seq<char> {
    opening + signed_decimal(days) + " days: "@ + name
}

/// What the downloads scanner reports of one entry of the downloads
/// directory. An entry is no candidate if its path is excluded, if its name
/// begins with a `.`, if it was accessed within the days that the settings
/// give, or if its metadata cannot be read.
pub open spec fn download_candidate(cfg: ConfigView, now: Timestamp, p: ProbeView) -> Option<
    FileView,
> {
    if excluded_by(cfg.excluded_paths, p.path) || is_hidden(p.path) || touched_within(
        p.accessed,
        cfg.download_age_days,
        now,
    ) || !p.metadata_ok {
        None
    } else {
        let accessed = known_or_now(p.accessed, now);
        Some(
            FileView {
                path: p.path,
                size: p.size,
                category: Category::Downloads,
                last_accessed: accessed,
                reason: idle_reason(
                    "Download not accessed in "@,
                    whole_days_between(now, accessed),
                    name_or_unknown(p.path),
                ),
                is_directory: p.is_dir,
            },
        )
    }
}

/// Writes the sentence that says for how long a file has not been accessed.
pub fn write_idle_reason(opening: &str, days: i64, name: &Vec<char>) -> (r: Vec<char>)
    ensures
        r@ == idle_reason(opening@, days as int, name@),
{
    let mut out: Vec<char> = Vec::new();
    append_str(&mut out, opening);
    assert(out@ == opening@);
    push_signed_decimal(&mut out, days);
    append_str(&mut out, " days: ");
    append_chars(&mut out, name);
    out
}

impl DownloadsScanner {
    /// The scanner.
    pub fn new() -> (r: Self) {
        DownloadsScanner
    }

    /// Decides on one entry of the downloads directory.
    pub fn examine(config: &Config, now: Timestamp, probe: &FileProbe) -> (r: Option<
        CleanableFile,
    >)
        ensures
            option_file_view(r) == download_candidate(config@, now, probe@),
    {
        if config.is_excluded(probe.path.as_str()) {
            return None;
        }
        if path_is_hidden(probe.path.as_str()) {
            return None;
        }
        if was_touched_within(probe.accessed, config.download_age_days, now) {
            return None;
        }
        if !probe.metadata_ok {
            return None;
        }
        let accessed = Timestamp::known_or(probe.accessed, now);
        let reason = write_idle_reason(
            "Download not accessed in ",
            age_in_days(now, accessed),
            &shown_name(probe.path.as_str()),
        );
        Some(
            new_file(
                &probe.path,
                probe.size,
                Category::Downloads,
                accessed,
                &reason,
                probe.is_dir,
            ),
        )
    }
}

impl Default for DownloadsScanner {
    /// The scanner.
    fn default() -> (r: Self) {
        DownloadsScanner::new()
    }
}

} // verus!
