//! Large files that may not be needed.

use crate::config::{excluded_by, Config, ConfigView};
use crate::path::{extension, extension_of, file_name, file_name_chars, is_hidden, path_is_hidden};
use crate::scanner::{
    name_or_unknown, new_file, option_file_view, shown_name, Category, CleanableFile, FileProbe,
    FileView, ProbeView,
};
use crate::text::{among, append_chars, append_str, chars_of, lowercased, str_views, to_lowercase};
use crate::time::{known_or_now, Timestamp};
use vstd::prelude::*;

verus! {

/// Reports the largest files.
#[derive(Debug, Clone, Copy)]
pub struct LargeFilesScanner;

/// How many files the scanner reports at most.
pub const MAX_LARGE_FILES: usize = 100;

/// The size above which a file of structured data is called a data file.
pub const DATA_FILE_BYTES: u64 = 100 * 1024 * 1024;

/// The names of the directories that a walk for large files does not enter.
pub open spec fn large_skip_dirs() -> Seq<Seq<char>> {
    seq![
        "node_modules"@,
        "target"@,
        ".git"@,
        ".svn"@,
        ".hg"@,
        "Library"@,
        "Applications"@,
        ".Trash"@,
        "Volumes"@,
        "System"@,
    ]
}

/// Whether a directory is left out of a walk by its name.
pub open spec fn named_among(path: Seq<char>, dirs: Seq<Seq<char>>) -> bool {
    match file_name(path) {
        Some(name) => dirs.contains(name),
        None => false,
    }
}

/// The extensions of database files.
pub open spec fn database_extensions() -> Seq<Seq<char>> {
    seq!["db"@, "sqlite"@, "sqlite3"@]
}

/// The extension of a path in lower case; that of the empty text where the
/// path has no extension.
pub open spec fn lower_extension(path: Seq<char>) -> Seq<char> {
    match extension(path) {
        Some(ext) => lowercased(ext),
        None => lowercased(Seq::empty()),
    }
}

/// The files and directories that mark the directory of a project.
pub open spec fn project_marker_names() -> Seq<Seq<char>> {
    seq!["package.json"@, "Cargo.toml"@, ".git"@]
}

/// Whether a large file is one that is commonly needed: a database file
/// beside which the marker of a project stands.
pub open spec fn commonly_needed(path: Seq<char>, beside_project_marker: bool) -> bool {
    match extension(path) {
        Some(ext) => database_extensions().contains(lowercased(ext)) && beside_project_marker,
        None => false,
    }
}

/// What a large file is called, by its extension in lower case and its size.
pub open spec fn large_file_kind(ext: Seq<char>, size: u64) -> Seq<char> {
    if ext == "dmg"@ {
        "Disk image"@
    } else if ext == "iso"@ {
        "ISO image"@
    } else if seq!["zip"@, "tar"@, "gz"@, "bz2"@, "xz"@, "7z"@, "rar"@].contains(ext) {
        "Archive"@
    } else if ext == "pkg"@ {
        "Installer package"@
    } else if ext == "app"@ {
        "Application bundle"@
    } else if seq!["mov"@, "mp4"@, "avi"@, "mkv"@, "wmv"@].contains(ext) {
        "Video file"@
    } else if seq!["wav"@, "aiff"@, "flac"@].contains(ext) {
        "Audio file"@
    } else if seq!["psd"@, "ai"@, "sketch"@].contains(ext) {
        "Design file"@
    } else if seq!["vmdk"@, "vdi"@, "vhd"@].contains(ext) {
        "Virtual disk"@
    } else if ext == "log"@ {
        "Log file"@
    } else if seq!["csv"@, "json"@, "xml"@].contains(ext) && size > DATA_FILE_BYTES {
        "Data file"@
    } else {
        "Large file"@
    }
}

/// What the scanner reports of one entry that the walk visited. A
/// candidate is a regular file of at least the size that the settings give;
/// it is none if its path is excluded, if its name begins with a `.`, if its
/// metadata cannot be read, or if it is commonly needed.
pub open spec fn large_file_candidate(cfg: ConfigView, now: Timestamp, p: ProbeView) -> Option<
    FileView,
> {
    if !p.is_file || excluded_by(cfg.excluded_paths, p.path) || is_hidden(p.path)
        || !p.metadata_ok || p.size < cfg.large_size_bytes() || commonly_needed(
        p.path,
        p.project_marker,
    ) {
        None
    } else {
        Some(
            FileView {
                path: p.path,
                size: p.size,
                category: Category::LargeFile,
                last_accessed: known_or_now(p.accessed, now),
                reason: large_file_kind(lower_extension(p.path), p.size) + ": "@
                    + name_or_unknown(p.path),
                is_directory: false,
            },
        )
    }
}

fn list1(a: &'static str) -> (r: Vec<&'static str>)
    ensures
        str_views(r@) == seq![a@],
{
    let mut v: Vec<&'static str> = Vec::new();
    v.push(a);
    assert(str_views(v@) =~= seq![a@]);
    v
}

fn list3(a: &'static str, b: &'static str, c: &'static str) -> (r: Vec<&'static str>)
    ensures
        str_views(r@) == seq![a@, b@, c@],
{
    let mut v: Vec<&'static str> = Vec::new();
    v.push(a);
    v.push(b);
    v.push(c);
    assert(str_views(v@) =~= seq![a@, b@, c@]);
    v
}

fn is_text(ext: &Vec<char>, a: &'static str) -> (r: bool)
    ensures
        r == (ext@ == a@),
{
    let r = among(ext, &list1(a));
    proof {
        if r {
            let k = choose|k: int| 0 <= k < seq![a@].len() && seq![a@][k] == ext@;
            assert(seq![a@][0] == a@);
        } else {
            assert(seq![a@][0] == a@);
        }
    }
    r
}

fn archive_extensions() -> (r: Vec<&'static str>)
    ensures
        str_views(r@) == seq!["zip"@, "tar"@, "gz"@, "bz2"@, "xz"@, "7z"@, "rar"@],
{
    let mut v: Vec<&'static str> = Vec::new();
    v.push("zip");
    v.push("tar");
    v.push("gz");
    v.push("bz2");
    v.push("xz");
    v.push("7z");
    v.push("rar");
    assert(str_views(v@) =~= seq!["zip"@, "tar"@, "gz"@, "bz2"@, "xz"@, "7z"@, "rar"@]);
    v
}

fn video_extensions() -> (r: Vec<&'static str>)
    ensures
        str_views(r@) == seq!["mov"@, "mp4"@, "avi"@, "mkv"@, "wmv"@],
{
    let mut v: Vec<&'static str> = Vec::new();
    v.push("mov");
    v.push("mp4");
    v.push("avi");
    v.push("mkv");
    v.push("wmv");
    assert(str_views(v@) =~= seq!["mov"@, "mp4"@, "avi"@, "mkv"@, "wmv"@]);
    v
}

/// The names of the directories that the walk does not enter.
pub fn skip_dir_list() -> (r: Vec<&'static str>)
    ensures
        str_views(r@) == large_skip_dirs(),
{
    let mut v: Vec<&'static str> = Vec::new();
    v.push("node_modules");
    v.push("target");
    v.push(".git");
    v.push(".svn");
    v.push(".hg");
    v.push("Library");
    v.push("Applications");
    v.push(".Trash");
    v.push("Volumes");
    v.push("System");
    assert(str_views(v@) =~= large_skip_dirs());
    v
}

/// Whether the directory at `path` is called by one of the names.
pub fn dir_named_among(path: &str, dirs: &Vec<&'static str>) -> (r: bool)
    ensures
        r == named_among(path@, str_views(dirs@)),
{
    match file_name_chars(path) {
        Some(name) => among(&name, dirs),
        None => false,
    }
}

/// What a large file is called, by its extension in lower case and its size.
pub fn kind_of_large_file(ext: &Vec<char>, size: u64) -> (r: &'static str)
    ensures
        r@ == large_file_kind(ext@, size),
{
    if is_text(ext, "dmg") {
        "Disk image"
    } else if is_text(ext, "iso") {
        "ISO image"
    } else if among(ext, &archive_extensions()) {
        "Archive"
    } else if is_text(ext, "pkg") {
        "Installer package"
    } else if is_text(ext, "app") {
        "Application bundle"
    } else if among(ext, &video_extensions()) {
        "Video file"
    } else if among(ext, &list3("wav", "aiff", "flac")) {
        "Audio file"
    } else if among(ext, &list3("psd", "ai", "sketch")) {
        "Design file"
    } else if among(ext, &list3("vmdk", "vdi", "vhd")) {
        "Virtual disk"
    } else if is_text(ext, "log") {
        "Log file"
    } else if among(ext, &list3("csv", "json", "xml")) && size > DATA_FILE_BYTES {
        "Data file"
    } else {
        "Large file"
    }
}

/// The extension of a path in lower case.
pub fn lower_extension_of(path: &str) -> (r: Vec<char>)
    ensures
        r@ == lower_extension(path@),
{
    match extension_of(path) {
        Some(ext) => chars_of(to_lowercase(ext.as_str()).as_str()),
        None => {
            let empty = String::new();
            chars_of(to_lowercase(empty.as_str()).as_str())
        },
    }
}

impl LargeFilesScanner {
    /// The scanner.
    pub fn new() -> (r: Self) {
        LargeFilesScanner
    }

    /// The files and directories that mark the directory of a project.
    pub fn project_markers() -> (r: Vec<&'static str>)
        ensures
            str_views(r@) == project_marker_names(),
    {
        list3("package.json", "Cargo.toml", ".git")
    }

    /// Whether a walk for large files leaves the directory at `path` out.
    pub fn should_skip_dir(path: &str) -> (r: bool)
        ensures
            r == named_among(path@, large_skip_dirs()),
    {
        dir_named_among(path, &skip_dir_list())
    }

    /// Whether the file at `path` is a large file that is commonly needed,
    /// given whether the marker of a project stands beside it.
    pub fn is_common_needed_large_file(path: &str, beside_project_marker: bool) -> (r: bool)
        ensures
            r == commonly_needed(path@, beside_project_marker),
    {
        match extension_of(path) {
            Some(ext) => {
                let lower = chars_of(to_lowercase(ext.as_str()).as_str());
                among(&lower, &list3("db", "sqlite", "sqlite3")) && beside_project_marker
            },
            None => false,
        }
    }

    /// Decides on one entry that the walk visited.
    pub fn examine(config: &Config, now: Timestamp, probe: &FileProbe) -> (r: Option<
        CleanableFile,
    >)
        ensures
            option_file_view(r) == large_file_candidate(config@, now, probe@),
    {
        if !probe.is_file {
            return None;
        }
        if config.is_excluded(probe.path.as_str()) {
            return None;
        }
        if path_is_hidden(probe.path.as_str()) {
            return None;
        }
        if !probe.metadata_ok {
            return None;
        }
        if probe.size < config.min_large_size_bytes() {
            return None;
        }
        if LargeFilesScanner::is_common_needed_large_file(
            probe.path.as_str(),
            probe.project_marker,
        ) {
            return None;
        }
        let ext = lower_extension_of(probe.path.as_str());
        let kind = kind_of_large_file(&ext, probe.size);
        let mut reason: Vec<char> = Vec::new();
        append_str(&mut reason, kind);
        assert(reason@ == kind@);
        append_str(&mut reason, ": ");
        append_chars(&mut reason, &shown_name(probe.path.as_str()));
        Some(
            new_file(
                &probe.path,
                probe.size,
                Category::LargeFile,
                Timestamp::known_or(probe.accessed, now),
                &reason,
                false,
            ),
        )
    }
}

impl Default for LargeFilesScanner {
    /// The scanner.
    fn default() -> (r: Self) {
        LargeFilesScanner::new()
    }
}

} // verus!
